use crate::parse::text::{after_ascii, char_start, lemma_after_ascii_char_start, lemma_trivia_char_start, text, text_of};
use crate::parse::utils::{is_alpha, is_alpha_byte, is_digit, is_digit_byte, lemma_trivia_end, skip_trivia, trivia_end};
use crate::token::{span, LiteralV, LiteralValue, Span};
use vstd::prelude::*;
use vstd::string::StringSliceAdditionalSpecFns;

verus! {

broadcast use vstd::utf8::encode_utf8_valid_utf8;

/// The end of the run of ASCII letters that starts at `p`.
pub open spec fn alpha_end(s: Seq<u8>, p: int) -> int
    decreases s.len() - p,
{
    if 0 <= p < s.len() && is_alpha(s[p]) {
        alpha_end(s, p + 1)
    } else {
        p
    }
}

/// The end of the run of ASCII digits that starts at `p`.
pub open spec fn digits_end(s: Seq<u8>, p: int) -> int
    decreases s.len() - p,
{
    if 0 <= p < s.len() && is_digit(s[p]) {
        digits_end(s, p + 1)
    } else {
        p
    }
}

pub open spec fn ascii_lower(b: u8) -> u8 {
    if 0x41u8 <= b <= 0x5au8 {
        (b + 32) as u8
    } else {
        b
    }
}

/// Whether the lower-case literal `lit` occurs at `p`, ignoring ASCII case.
pub open spec fn caseless_at(s: Seq<u8>, p: int, lit: Seq<u8>) -> bool {
    0 <= p && p + lit.len() <= s.len() && forall|i: int|
        0 <= i < lit.len() ==> ascii_lower(s[p + i]) == lit[i]
}

pub open spec fn bytes_nan() -> Seq<u8> {
    seq![0x6eu8, 0x61u8, 0x6eu8]
}

pub open spec fn bytes_inf() -> Seq<u8> {
    seq![0x69u8, 0x6eu8, 0x66u8]
}

pub open spec fn bytes_inity() -> Seq<u8> {
    seq![0x69u8, 0x6eu8, 0x69u8, 0x74u8, 0x79u8]
}

pub open spec fn bytes_null() -> Seq<u8> {
    seq![0x6eu8, 0x75u8, 0x6cu8, 0x6cu8]
}

pub open spec fn bytes_true() -> Seq<u8> {
    seq![0x54u8, 0x72u8, 0x75u8, 0x65u8]
}

pub open spec fn bytes_false() -> Seq<u8> {
    seq![0x46u8, 0x61u8, 0x6cu8, 0x73u8, 0x65u8]
}

/// The end of an optional exponent `e[+-]digits` at `q`; `None` when an exponent marker is not
/// followed by digits.
pub open spec fn exp_end(s: Seq<u8>, q: int) -> Option<int> {
    if 0 <= q < s.len() && (s[q] == 0x65u8 || s[q] == 0x45u8) {
        let r = if q + 1 < s.len() && (s[q + 1] == 0x2bu8 || s[q + 1] == 0x2du8) {
            q + 2
        } else {
            q + 1
        };
        if r < s.len() && is_digit(s[r]) {
            Some(digits_end(s, r))
        } else {
            None
        }
    } else {
        Some(q)
    }
}

/// The end of an unsigned number at `q`: `inf`, `infinity`, `.digits`, or
/// `digits[.[digits]]`, each but the first two followed by an optional exponent.
pub open spec fn unsigned_number_end(s: Seq<u8>, q: int) -> Option<int> {
    if 0 <= q < s.len() && (s[q] == 0x49u8 || s[q] == 0x69u8) {
        if caseless_at(s, q, bytes_inf()) {
            if caseless_at(s, q + 3, bytes_inity()) {
                Some(q + 8)
            } else {
                Some(q + 3)
            }
        } else {
            None
        }
    } else if 0 <= q < s.len() && s[q] == 0x2eu8 {
        if q + 1 < s.len() && is_digit(s[q + 1]) {
            exp_end(s, digits_end(s, q + 1))
        } else {
            None
        }
    } else if 0 <= q < s.len() && is_digit(s[q]) {
        let d = digits_end(s, q);
        let e = if d < s.len() && s[d] == 0x2eu8 {
            digits_end(s, d + 1)
        } else {
            d
        };
        exp_end(s, e)
    } else {
        None
    }
}

/// The end of the number literal that starts at `p`: `nan`, or an optionally signed unsigned
/// number (letters compared without regard to case).
pub open spec fn number_end(s: Seq<u8>, p: int) -> Option<int> {
    if 0 <= p < s.len() && (s[p] == 0x4eu8 || s[p] == 0x6eu8) {
        if caseless_at(s, p, bytes_nan()) {
            Some(p + 3)
        } else {
            None
        }
    } else if 0 <= p < s.len() && (s[p] == 0x2bu8 || s[p] == 0x2du8) {
        unsigned_number_end(s, p + 1)
    } else {
        unsigned_number_end(s, p)
    }
}

pub open spec fn is_quote(b: u8) -> bool {
    b == 0x22u8 || b == 0x27u8
}

/// The end of the body of a string quoted by `q` that starts at `i`: any bytes but `q`, with
/// `q` written twice standing for itself.
pub open spec fn string_body_end(s: Seq<u8>, i: int, q: u8) -> int
    decreases s.len() - i,
{
    if 0 <= i && i + 1 < s.len() && s[i] == q && s[i + 1] == q {
        string_body_end(s, i + 2, q)
    } else if 0 <= i < s.len() && s[i] != q {
        string_body_end(s, i + 1, q)
    } else {
        i
    }
}

/// The end (just past the closing quote) of the quoted string that starts at `p`.
pub open spec fn string_end(s: Seq<u8>, p: int) -> Option<int> {
    if 0 <= p < s.len() && is_quote(s[p]) {
        let c = string_body_end(s, p + 1, s[p]);
        if 0 <= c < s.len() && s[c] == s[p] {
            Some(c + 1)
        } else {
            None
        }
    } else {
        None
    }
}

/// The literal that starts exactly at `t`, and where it ends. The alternatives are tried in
/// order: `null` (any case), a number, `True`, `False`, a quoted string.
pub open spec fn literal_token(s: Seq<u8>, t: int) -> Option<(LiteralV, int)> {
    let a = alpha_end(s, t);
    if a == t + 4 && caseless_at(s, t, bytes_null()) {
        Some((LiteralV::Null, a))
    } else if number_end(s, t) is Some {
        let e = number_end(s, t)->0;
        Some((LiteralV::Number(text(s, t, e)), e))
    } else if a > t && s.subrange(t, a) == bytes_true() {
        Some((LiteralV::Checkbox(true), a))
    } else if a > t && s.subrange(t, a) == bytes_false() {
        Some((LiteralV::Checkbox(false), a))
    } else if string_end(s, t) is Some {
        let e = string_end(s, t)->0;
        Some((LiteralV::Text(text(s, t + 1, e - 1)), e))
    } else {
        None
    }
}

/// A literal with the whitespace and comments around it: the literal, its span, and where
/// parsing continues.
pub open spec fn literal_spec(s: Seq<u8>, p: int) -> Option<(LiteralV, Span, int)> {
    let t = trivia_end(s, p);
    match literal_token(s, t) {
        Some((v, e)) => Some((v, span(t, e), trivia_end(s, e))),
        None => None,
    }
}

// ----- facts -----
pub proof fn lemma_alpha_end(s: Seq<u8>, p: int)
    requires
        0 <= p <= s.len(),
    ensures
        p <= alpha_end(s, p) <= s.len(),
        forall|i: int| p <= i < alpha_end(s, p) ==> is_alpha(#[trigger] s[i]),
        p < s.len() && is_alpha(s[p]) ==> alpha_end(s, p) > p,
        alpha_end(s, p) < s.len() ==> !is_alpha(s[alpha_end(s, p)]),
    decreases s.len() - p,
{
    if p < s.len() && is_alpha(s[p]) {
        lemma_alpha_end(s, p + 1);
    }
}

pub proof fn lemma_digits_end(s: Seq<u8>, p: int)
    requires
        0 <= p <= s.len(),
    ensures
        p <= digits_end(s, p) <= s.len(),
        forall|i: int| p <= i < digits_end(s, p) ==> is_digit(#[trigger] s[i]),
        p < s.len() && is_digit(s[p]) ==> digits_end(s, p) > p,
    decreases s.len() - p,
{
    if p < s.len() && is_digit(s[p]) {
        lemma_digits_end(s, p + 1);
    }
}

pub proof fn lemma_string_body_end(s: Seq<u8>, i: int, q: u8)
    requires
        0 <= i <= s.len(),
    ensures
        i <= string_body_end(s, i, q) <= s.len(),
    decreases s.len() - i,
{
    if i + 1 < s.len() && s[i] == q && s[i + 1] == q {
        lemma_string_body_end(s, i + 2, q);
    } else if i < s.len() && s[i] != q {
        lemma_string_body_end(s, i + 1, q);
    }
}

pub proof fn lemma_number_end(s: Seq<u8>, p: int)
    requires
        0 <= p <= s.len(),
    ensures
        number_end(s, p) matches Some(e) ==> p < e <= s.len() && s[e - 1] < 0x80u8,
{
    if p < s.len() {
        if s[p] == 0x4eu8 || s[p] == 0x6eu8 {
            if caseless_at(s, p, bytes_nan()) {
                assert(ascii_lower(s[p + 2]) == bytes_nan()[2]);
            }
        } else {
            let q = if s[p] == 0x2bu8 || s[p] == 0x2du8 { p + 1 } else { p };
            if q < s.len() {
                lemma_unsigned_number_end(s, q);
            }
        }
    }
}

proof fn lemma_exp_end(s: Seq<u8>, q: int)
    requires
        0 < q <= s.len(),
        s[q - 1] < 0x80u8,
    ensures
        exp_end(s, q) matches Some(e) ==> q <= e <= s.len() && s[e - 1] < 0x80u8,
{
    if q < s.len() && (s[q] == 0x65u8 || s[q] == 0x45u8) {
        let r = if q + 1 < s.len() && (s[q + 1] == 0x2bu8 || s[q + 1] == 0x2du8) {
            q + 2
        } else {
            q + 1
        };
        if r < s.len() && is_digit(s[r]) {
            lemma_digits_end(s, r);
            assert(is_digit(s[digits_end(s, r) - 1]));
        }
    }
}

proof fn lemma_unsigned_number_end(s: Seq<u8>, q: int)
    requires
        0 <= q < s.len(),
    ensures
        unsigned_number_end(s, q) matches Some(e) ==> q < e <= s.len() && s[e - 1] < 0x80u8,
{
    if s[q] == 0x49u8 || s[q] == 0x69u8 {
        if caseless_at(s, q, bytes_inf()) {
            if caseless_at(s, q + 3, bytes_inity()) {
                assert(ascii_lower(s[q + 3 + 4]) == bytes_inity()[4]);
            } else {
                assert(ascii_lower(s[q + 2]) == bytes_inf()[2]);
            }
        }
    } else if s[q] == 0x2eu8 {
        if q + 1 < s.len() && is_digit(s[q + 1]) {
            lemma_digits_end(s, q + 1);
            let d = digits_end(s, q + 1);
            assert(is_digit(s[d - 1]));
            lemma_exp_end(s, d);
        }
    } else if is_digit(s[q]) {
        lemma_digits_end(s, q);
        let d = digits_end(s, q);
        assert(is_digit(s[d - 1]));
        if d < s.len() && s[d] == 0x2eu8 {
            lemma_digits_end(s, d + 1);
            let e = digits_end(s, d + 1);
            if e > d + 1 {
                assert(is_digit(s[e - 1]));
            }
            lemma_exp_end(s, e);
        } else {
            lemma_exp_end(s, d);
        }
    }
}

/// Where a literal token ends: past its start, after an ASCII byte.
pub proof fn lemma_literal_token(s: Seq<u8>, t: int)
    requires
        0 <= t <= s.len(),
    ensures
        literal_token(s, t) matches Some((v, e)) ==> t < e <= s.len() && s[e - 1] < 0x80u8,
        literal_token(s, t) matches Some((LiteralV::Text(x), e)) ==> t + 1 <= e - 1 && s[t]
            < 0x80u8 && s[e - 1] < 0x80u8,
{
    lemma_alpha_end(s, t);
    lemma_number_end(s, t);
    let a = alpha_end(s, t);
    if a > t {
        assert(is_alpha(s[a - 1]));
    }
    if t < s.len() {
        lemma_string_body_end(s, t + 1, s[t]);
    }
}

// ----- executable recognisers -----
pub(crate) fn alpha_end_exec(b: &[u8], p: usize) -> (r: usize)
    requires
        p <= b.len(),
    ensures
        r == alpha_end(b@, p as int),
{
    let mut i = p;
    while i < b.len() && is_alpha_byte(b[i])
        invariant
            p <= i <= b.len(),
            alpha_end(b@, p as int) == alpha_end(b@, i as int),
        decreases b.len() - i,
    {
        i = i + 1;
    }
    i
}

fn digits_end_exec(b: &[u8], p: usize) -> (r: usize)
    requires
        p <= b.len(),
    ensures
        r == digits_end(b@, p as int),
{
    let mut i = p;
    while i < b.len() && is_digit_byte(b[i])
        invariant
            p <= i <= b.len(),
            digits_end(b@, p as int) == digits_end(b@, i as int),
        decreases b.len() - i,
    {
        i = i + 1;
    }
    i
}

fn lower_byte(c: u8) -> (r: u8)
    ensures
        r == ascii_lower(c),
{
    if 0x41u8 <= c && c <= 0x5au8 {
        c + 32
    } else {
        c
    }
}

fn caseless_at_exec(b: &[u8], p: usize, lit: &[u8]) -> (r: bool)
    ensures
        r == caseless_at(b@, p as int, lit@),
{
    if p > b.len() || lit.len() > b.len() - p {
        return false;
    }
    let mut i: usize = 0;
    while i < lit.len()
        invariant
            p + lit.len() <= b.len(),
            i <= lit.len(),
            forall|k: int| 0 <= k < i ==> ascii_lower(b@[p + k]) == lit@[k],
        decreases lit.len() - i,
    {
        if lower_byte(b[p + i]) != lit[i] {
            return false;
        }
        i = i + 1;
    }
    true
}

fn exp_end_exec(b: &[u8], q: usize) -> (r: Option<usize>)
    requires
        q <= b.len(),
    ensures
        r matches Some(e) ==> exp_end(b@, q as int) == Some(e as int),
        r is None ==> exp_end(b@, q as int) is None,
{
    if q < b.len() && (b[q] == 0x65u8 || b[q] == 0x45u8) {
        let r = if q + 1 < b.len() && (b[q + 1] == 0x2bu8 || b[q + 1] == 0x2du8) {
            q + 2
        } else {
            q + 1
        };
        if r < b.len() && is_digit_byte(b[r]) {
            Some(digits_end_exec(b, r))
        } else {
            None
        }
    } else {
        Some(q)
    }
}

fn unsigned_number_end_exec(b: &[u8], q: usize) -> (r: Option<usize>)
    requires
        q <= b.len(),
    ensures
        r matches Some(e) ==> unsigned_number_end(b@, q as int) == Some(e as int),
        r is None ==> unsigned_number_end(b@, q as int) is None,
{
    let inf: [u8; 3] = [0x69u8, 0x6eu8, 0x66u8];
    let inity: [u8; 5] = [0x69u8, 0x6eu8, 0x69u8, 0x74u8, 0x79u8];
    proof {
        assert(inf@ =~= bytes_inf());
        assert(inity@ =~= bytes_inity());
    }
    if q < b.len() && (b[q] == 0x49u8 || b[q] == 0x69u8) {
        if caseless_at_exec(b, q, inf.as_slice()) {
            if caseless_at_exec(b, q + 3, inity.as_slice()) {
                Some(q + 8)
            } else {
                Some(q + 3)
            }
        } else {
            None
        }
    } else if q < b.len() && b[q] == 0x2eu8 {
        if q + 1 < b.len() && is_digit_byte(b[q + 1]) {
            let d = digits_end_exec(b, q + 1);
            proof {
                lemma_digits_end(b@, q + 1);
            }
            exp_end_exec(b, d)
        } else {
            None
        }
    } else if q < b.len() && is_digit_byte(b[q]) {
        let d = digits_end_exec(b, q);
        proof {
            lemma_digits_end(b@, q as int);
        }
        let e = if d < b.len() && b[d] == 0x2eu8 {
            proof {
                lemma_digits_end(b@, d + 1);
            }
            digits_end_exec(b, d + 1)
        } else {
            d
        };
        exp_end_exec(b, e)
    } else {
        None
    }
}

fn number_end_exec(b: &[u8], p: usize) -> (r: Option<usize>)
    requires
        p <= b.len(),
    ensures
        r matches Some(e) ==> number_end(b@, p as int) == Some(e as int),
        r is None ==> number_end(b@, p as int) is None,
{
    let nan: [u8; 3] = [0x6eu8, 0x61u8, 0x6eu8];
    proof {
        assert(nan@ =~= bytes_nan());
    }
    if p < b.len() && (b[p] == 0x4eu8 || b[p] == 0x6eu8) {
        if caseless_at_exec(b, p, nan.as_slice()) {
            Some(p + 3)
        } else {
            None
        }
    } else if p < b.len() && (b[p] == 0x2bu8 || b[p] == 0x2du8) {
        unsigned_number_end_exec(b, p + 1)
    } else {
        unsigned_number_end_exec(b, p)
    }
}

fn string_end_exec(b: &[u8], p: usize) -> (r: Option<usize>)
    requires
        p <= b.len(),
    ensures
        r matches Some(e) ==> string_end(b@, p as int) == Some(e as int),
        r is None ==> string_end(b@, p as int) is None,
{
    if p < b.len() && (b[p] == 0x22u8 || b[p] == 0x27u8) {
        let q = b[p];
        let mut i = p + 1;
        let mut go = true;
        while go && i < b.len()
            invariant
                p + 1 <= i <= b.len(),
                q == b@[p as int],
                string_body_end(b@, p + 1, q) == string_body_end(b@, i as int, q),
                !go ==> string_body_end(b@, i as int, q) == i,
            decreases b.len() - i + (if go { 1int } else { 0int }),
        {
            if i + 1 < b.len() && b[i] == q && b[i + 1] == q {
                i = i + 2;
            } else if b[i] != q {
                i = i + 1;
            } else {
                go = false;
            }
        }
        if i < b.len() && b[i] == q {
            Some(i + 1)
        } else {
            None
        }
    } else {
        None
    }
}

fn is_word(b: &[u8], t: usize, a: usize, w: &[u8]) -> (r: bool)
    requires
        t <= a <= b.len(),
    ensures
        r == (b@.subrange(t as int, a as int) == w@),
{
    if a - t != w.len() {
        proof {
            assert(b@.subrange(t as int, a as int).len() != w@.len());
        }
        return false;
    }
    let mut i: usize = 0;
    while i < w.len()
        invariant
            a - t == w.len(),
            t <= a <= b.len(),
            i <= w.len(),
            forall|k: int| 0 <= k < i ==> b@[t + k] == w@[k],
        decreases w.len() - i,
    {
        if b[t + i] != w[i] {
            proof {
                assert(b@.subrange(t as int, a as int)[i as int] != w@[i as int]);
            }
            return false;
        }
        i = i + 1;
    }
    proof {
        assert(b@.subrange(t as int, a as int) =~= w@);
    }
    true
}

/// Recognises the literal that starts exactly at `t`.
pub fn literal_token_exec(src: &str, b: &[u8], t: usize) -> (r: Option<(LiteralValue, usize)>)
    requires
        b@ == src.spec_bytes(),
        t <= b.len(),
        char_start(b@, t as int),
    ensures
        r matches Some((v, e)) ==> literal_token(b@, t as int) == Some((v@, e as int)),
        r is None ==> literal_token(b@, t as int) is None,
{
    let ghost s = b@;
    proof {
        lemma_literal_token(s, t as int);
        lemma_alpha_end(s, t as int);
    }
    let null_w: [u8; 4] = [0x6eu8, 0x75u8, 0x6cu8, 0x6cu8];
    let true_w: [u8; 4] = [0x54u8, 0x72u8, 0x75u8, 0x65u8];
    let false_w: [u8; 5] = [0x46u8, 0x61u8, 0x6cu8, 0x73u8, 0x65u8];
    proof {
        assert(null_w@ =~= bytes_null());
        assert(true_w@ =~= bytes_true());
        assert(false_w@ =~= bytes_false());
    }
    let a = alpha_end_exec(b, t);
    if a - t == 4 && caseless_at_exec(b, t, null_w.as_slice()) {
        return Some((LiteralValue::Null, a));
    }
    match number_end_exec(b, t) {
        Some(e) => {
            proof {
                lemma_after_ascii_char_start(s, e as int);
            }
            let txt = text_of(src, b, t, e);
            return Some((LiteralValue::Number(txt), e));
        },
        None => {},
    }
    if a > t && is_word(b, t, a, true_w.as_slice()) {
        return Some((LiteralValue::Checkbox(true), a));
    }
    if a > t && is_word(b, t, a, false_w.as_slice()) {
        return Some((LiteralValue::Checkbox(false), a));
    }
    match string_end_exec(b, t) {
        Some(e) => {
            proof {
                lemma_after_ascii_char_start(s, t + 1);
                assert(char_start(s, e - 1));
            }
            let txt = text_of(src, b, t + 1, e - 1);
            Some((LiteralValue::Text(txt), e))
        },
        None => None,
    }
}

/// `True` or `False`, exactly as written, at `p`.
pub open spec fn checkbox_spec(s: Seq<u8>, p: int) -> Option<(bool, int)> {
    let a = alpha_end(s, p);
    if a > p && s.subrange(p, a) == bytes_true() {
        Some((true, a))
    } else if a > p && s.subrange(p, a) == bytes_false() {
        Some((false, a))
    } else {
        None
    }
}

/// Parses `True` or `False` at `pos`: the value and where it ends.
pub fn parse_checkbox(input: &str, pos: usize) -> (r: Option<(bool, usize)>)
    requires
        pos <= input.spec_bytes().len(),
    ensures
        r matches Some((v, e)) ==> checkbox_spec(input.spec_bytes(), pos as int) == Some(
            (v, e as int),
        ),
        r is None ==> checkbox_spec(input.spec_bytes(), pos as int) is None,
{
    let b = input.as_bytes();
    let true_w: [u8; 4] = [0x54u8, 0x72u8, 0x75u8, 0x65u8];
    let false_w: [u8; 5] = [0x46u8, 0x61u8, 0x6cu8, 0x73u8, 0x65u8];
    proof {
        assert(true_w@ =~= bytes_true());
        assert(false_w@ =~= bytes_false());
        lemma_alpha_end(b@, pos as int);
    }
    let a = alpha_end_exec(b, pos);
    if a > pos && is_word(b, pos, a, true_w.as_slice()) {
        Some((true, a))
    } else if a > pos && is_word(b, pos, a, false_w.as_slice()) {
        Some((false, a))
    } else {
        None
    }
}

/// `null` in any letter case, as a whole word of letters, at `p`.
pub open spec fn null_spec(s: Seq<u8>, p: int) -> Option<int> {
    if alpha_end(s, p) == p + 4 && caseless_at(s, p, bytes_null()) {
        Some(p + 4)
    } else {
        None
    }
}

/// Parses `null` (in any letter case) at `pos`: where it ends.
pub fn parse_null(input: &str, pos: usize) -> (r: Option<usize>)
    requires
        pos <= input.spec_bytes().len(),
    ensures
        r matches Some(e) ==> null_spec(input.spec_bytes(), pos as int) == Some(e as int),
        r is None ==> null_spec(input.spec_bytes(), pos as int) is None,
{
    let b = input.as_bytes();
    let null_w: [u8; 4] = [0x6eu8, 0x75u8, 0x6cu8, 0x6cu8];
    proof {
        assert(null_w@ =~= bytes_null());
        lemma_alpha_end(b@, pos as int);
    }
    let a = alpha_end_exec(b, pos);
    if a - pos == 4 && caseless_at_exec(b, pos, null_w.as_slice()) {
        Some(a)
    } else {
        None
    }
}

/// Parses a number at `pos`: its text as written and where it ends.
pub fn parse_number(input: &str, pos: usize) -> (r: Option<(String, usize)>)
    requires
        char_start(input.spec_bytes(), pos as int),
    ensures
        r matches Some((t, e)) ==> number_end(input.spec_bytes(), pos as int) == Some(e as int)
            && t@ == text(input.spec_bytes(), pos as int, e as int),
        r is None ==> number_end(input.spec_bytes(), pos as int) is None,
{
    let b = input.as_bytes();
    proof {
        lemma_number_end(b@, pos as int);
    }
    match number_end_exec(b, pos) {
        Some(e) => {
            proof {
                lemma_after_ascii_char_start(b@, e as int);
            }
            Some((text_of(input, b, pos, e), e))
        },
        None => None,
    }
}

/// Parses a quoted string at `pos`: the text between its quotes (as written, doubled quotes
/// kept) and where it ends.
pub fn parse_string(input: &str, pos: usize) -> (r: Option<(String, usize)>)
    requires
        pos <= input.spec_bytes().len(),
    ensures
        r matches Some((t, e)) ==> string_end(input.spec_bytes(), pos as int) == Some(e as int)
            && t@ == text(input.spec_bytes(), pos + 1, e - 1),
        r is None ==> string_end(input.spec_bytes(), pos as int) is None,
{
    let b = input.as_bytes();
    match string_end_exec(b, pos) {
        Some(e) => {
            proof {
                lemma_string_body_end(b@, pos + 1, b@[pos as int]);
                lemma_after_ascii_char_start(b@, pos + 1);
                assert(char_start(b@, e - 1));
            }
            Some((text_of(input, b, pos + 1, e - 1), e))
        },
        None => None,
    }
}

/// Parses a literal at `pos`, with the whitespace and comments around it: the literal, its
/// span, and where parsing continues.
pub fn parse_literal(input: &str, pos: usize) -> (r: Option<((LiteralValue, Span), usize)>)
    requires
        char_start(input.spec_bytes(), pos as int),
    ensures
        r matches Some(((v, sp), q)) ==> literal_spec(input.spec_bytes(), pos as int) == Some(
            (v@, sp, q as int),
        ),
        r is None ==> literal_spec(input.spec_bytes(), pos as int) is None,
{
    let b = input.as_bytes();
    let t = skip_trivia(b, pos);
    proof {
        lemma_trivia_char_start(b@, pos as int);
        lemma_literal_token(b@, t as int);
    }
    match literal_token_exec(input, b, t) {
        Some((v, e)) => {
            let q = skip_trivia(b, e);
            Some(((v, Span::new(t, e)), q))
        },
        None => None,
    }
}

} // verus!

verus! {

/// A quoted string runs from its opening quote to the first lone closing quote of the same
/// kind: every other byte in between, including the other kind of quote, belongs to its text.
pub proof fn lemma_string_runs_to_its_quote(s: Seq<u8>, p: int, j: int)
    requires
        0 <= p < j < s.len(),
        s[p] == 0x22u8 || s[p] == 0x27u8,
        s[j] == s[p],
        j + 1 == s.len() || s[j + 1] != s[p],
        forall|i: int| p < i < j ==> s[i] != s[p],
    ensures
        string_end(s, p) == Some(j + 1),
{
    lemma_string_body_to(s, p + 1, j, s[p]);
}

proof fn lemma_string_body_to(s: Seq<u8>, i: int, j: int, q: u8)
    requires
        0 <= i <= j < s.len(),
        s[j] == q,
        j + 1 == s.len() || s[j + 1] != q,
        forall|k: int| i <= k < j ==> s[k] != q,
    ensures
        string_body_end(s, i, q) == j,
    decreases j - i,
{
    if i < j {
        lemma_string_body_to(s, i + 1, j, q);
    }
}

} // verus!
