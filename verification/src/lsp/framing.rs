use crate::parse::utils::is_digit;
use crate::strings::{decimal, digit_char, push_decimal};
use vstd::prelude::*;
use vstd::string::{StringExecFns, StringSliceAdditionalSpecFns};
use crate::lsp::position::{find_line_end, line_end};
use vstd::utf8::{encode_utf8, is_ascii_chars, is_ascii_chars_encode_utf8, valid_utf8};

verus! {

// ----- writing -----

/// A message body, to be serialised and framed for the wire.
#[derive(Debug)]
pub struct Header<Body> {
    pub body: Body,
}

impl<Body> Header<Body> {
    /// Wraps `obj` as the body of a message.
    pub fn new(obj: Body) -> (r: Self)
        ensures
            r.body == obj,
    {
        Header { body: obj }
    }
}

/// The header field that opens every message, with the separator after its name.
pub open spec fn length_field() -> Seq<char> {
    seq!['C', 'o', 'n', 't', 'e', 'n', 't', '-', 'L', 'e', 'n', 'g', 't', 'h', ':', ' ']
}

/// The line break that ends the header line, followed by the empty line that ends the header.
pub open spec fn header_end() -> Seq<char> {
    seq!['\r', '\n', '\r', '\n']
}

/// A message on the wire: the header announcing the body's size in bytes, then the body.
pub open spec fn framed(body: Seq<char>) -> Seq<char> {
    length_field() + decimal(encode_utf8(body).len()) + header_end() + body
}

/// Frames the JSON text `json` as a message: `Content-Length: N`, an empty line, then `json`,
/// where `N` is the size of `json` in bytes.
pub fn frame_message(json: &str) -> (r: String)
    ensures
        r@ == framed(json@),
{
    let size = json.as_bytes().len();
    let mut out = String::from_str("Content-Length: ");
    proof {
        reveal_strlit("Content-Length: ");
        reveal_strlit("\r\n\r\n");
    }
    push_decimal(&mut out, size);
    out.append("\r\n\r\n");
    out.append(json);
    assert(out@ =~= framed(json@));
    out
}

// ----- reading -----

/// The number that the decimal digits `d` spell.
pub open spec fn digits_value(d: Seq<u8>) -> nat
    decreases d.len(),
{
    if d.len() == 0 {
        0
    } else {
        digits_value(d.drop_last()) * 10 + (d.last() - 0x30u8) as nat
    }
}

pub open spec fn all_digits(d: Seq<u8>) -> bool {
    forall|i: int| 0 <= i < d.len() ==> is_digit(#[trigger] d[i])
}

/// The `usize` that std's parsing reads from the text `d`: an optional `+`, then one or more
/// ASCII digits whose value fits in a `usize`.
pub open spec fn usize_text_value(d: Seq<u8>) -> Option<nat> {
    if d.len() > 0 && d[0] == 0x2bu8 {
        digits_text_value(d.drop_first())
    } else {
        digits_text_value(d)
    }
}

/// The value of one or more ASCII digits, when it fits in a `usize`.
pub open spec fn digits_text_value(body: Seq<u8>) -> Option<nat> {
    if body.len() > 0 && all_digits(body) && digits_value(body) <= usize::MAX {
        Some(digits_value(body))
    } else {
        None
    }
}

/// The body size that a header line announces: the text between the field name, whose 16
/// bytes are not looked at, and the line's closing carriage return and line feed.
pub open spec fn announced_length(line: Seq<u8>) -> Option<nat> {
    usize_text_value(line.subrange(16, line.len() - 2))
}

/// A header line that does not announce a body size.
#[derive(Debug, Clone, Copy, PartialEq, Eq)]
pub enum FrameError {
    InvalidLength,
}

proof fn lemma_digits_value_prefix(d: Seq<u8>, k: int)
    requires
        0 <= k <= d.len(),
    ensures
        digits_value(d.subrange(0, k)) <= digits_value(d),
    decreases d.len(),
{
    if k < d.len() {
        lemma_digits_value_prefix(d.drop_last(), k);
        assert(d.drop_last().subrange(0, k) =~= d.subrange(0, k));
    } else {
        assert(d.subrange(0, k) =~= d);
    }
}

/// Reads the body size from a header line (the bytes up to and including its line feed).
pub fn content_length(line: &[u8]) -> (r: Result<usize, FrameError>)
    requires
        line@.len() >= 18,
    ensures
        r matches Ok(n) ==> announced_length(line@) == Some(n as nat),
        r is Err <==> announced_length(line@) is None,
{
    let end = line.len() - 2;
    let ghost d = line@.subrange(16, end as int);
    let mut start: usize = 16;
    if start < end && line[start] == 0x2bu8 {
        start = 17;
    }
    let ghost body = line@.subrange(start as int, end as int);
    assert(announced_length(line@) == digits_text_value(body)) by {
        if d.len() > 0 && d[0] == 0x2bu8 {
            assert(body =~= d.drop_first());
        } else {
            assert(body =~= d);
        }
    }
    if start >= end {
        return Err(FrameError::InvalidLength);
    }
    let mut acc: usize = 0;
    let mut i: usize = start;
    while i < end
        invariant
            16 <= start <= i <= end,
            end == line@.len() - 2,
            body == line@.subrange(start as int, end as int),
            announced_length(line@) == digits_text_value(body),
            all_digits(line@.subrange(start as int, i as int)),
            acc == digits_value(line@.subrange(start as int, i as int)),
        decreases end - i,
    {
        let b = line[i];
        if b < 0x30u8 || b > 0x39u8 {
            assert(body[i - start] == b);
            return Err(FrameError::InvalidLength);
        }
        let ghost prev = line@.subrange(start as int, i as int);
        let ghost next = line@.subrange(start as int, i + 1);
        assert(next.drop_last() =~= prev);
        proof {
            lemma_digits_value_prefix(body, i + 1 - start);
            assert(body.subrange(0, i + 1 - start) =~= next);
        }
        match acc.checked_mul(10) {
            None => {
                return Err(FrameError::InvalidLength);
            },
            Some(m) => match m.checked_add((b - 0x30u8) as usize) {
                None => {
                    return Err(FrameError::InvalidLength);
                },
                Some(v) => {
                    acc = v;
                },
            },
        }
        i = i + 1;
    }
    assert(line@.subrange(start as int, i as int) =~= body);
    Ok(acc)
}

// ----- round trip -----

proof fn lemma_encode_concat(a: Seq<char>, b: Seq<char>)
    ensures
        encode_utf8(a + b) == encode_utf8(a) + encode_utf8(b),
    decreases a.len(),
{
    if a.len() == 0 {
        assert(a + b =~= b);
        assert(encode_utf8(a) + encode_utf8(b) =~= encode_utf8(b));
    } else {
        assert((a + b).drop_first() =~= a.drop_first() + b);
        lemma_encode_concat(a.drop_first(), b);
        assert(encode_utf8(a + b) =~= encode_utf8(a) + encode_utf8(b));
    }
}

proof fn lemma_decimal_digits(n: nat)
    ensures
        decimal(n).len() > 0,
        forall|i: int| 0 <= i < decimal(n).len() ==> '0' <= #[trigger] decimal(n)[i] <= '9',
        digits_value(Seq::new(decimal(n).len(), |i: int| decimal(n)[i] as u8)) == n,
    decreases n,
{
    let b = Seq::new(decimal(n).len(), |i: int| decimal(n)[i] as u8);
    if n < 10 {
        assert(decimal(n) =~= seq![digit_char(n)]);
        assert(b.drop_last() =~= Seq::<u8>::empty());
        assert(digit_char(n) as u8 == 0x30 + n);
        assert(b.last() == 0x30 + n);
        assert(digits_value(b.drop_last()) == 0);
    } else {
        lemma_decimal_digits(n / 10);
        let p = decimal(n / 10);
        assert(decimal(n) =~= p.push(digit_char(n % 10)));
        assert(b.drop_last() =~= Seq::new(p.len(), |i: int| p[i] as u8));
        assert(digit_char(n % 10) as u8 == 0x30 + n % 10);
        assert(b.last() == 0x30 + n % 10);
        assert(digits_value(b.drop_last()) == n / 10);
        assert(n == (n / 10) * 10 + n % 10);
    }
}

/// What the reader of a framed message gets back: its header line (the bytes through the
/// first line feed) announces the body's size, an empty line follows, and then comes the body,
/// byte for byte.
pub proof fn lemma_frame_round_trip(body: Seq<char>)
    requires
        encode_utf8(body).len() <= usize::MAX,
    ensures
        ({
            let n = encode_utf8(body).len();
            let f = encode_utf8(framed(body));
            let k = 18 + decimal(n).len() as int;
            &&& f.len() == k + 2 + n
            &&& forall|i: int| 0 <= i < k - 1 ==> #[trigger] f[i] != 0x0au8
            &&& f[k - 1] == 0x0au8
            &&& announced_length(f.subrange(0, k)) == Some(n)
            &&& f.subrange(k, k + 2) == seq![0x0du8, 0x0au8]
            &&& f.subrange(k + 2, f.len() as int) == encode_utf8(body)
        }),
{
    let n = encode_utf8(body).len();
    let d = decimal(n);
    lemma_decimal_digits(n);
    let head = length_field() + d + header_end();
    assert(framed(body) =~= head + body);
    lemma_encode_concat(head, body);
    assert(is_ascii_chars(head));
    is_ascii_chars_encode_utf8(head);
    let f = encode_utf8(framed(body));
    let k = 18 + d.len() as int;
    assert(f.len() == k + 2 + n);
    assert forall|i: int| 0 <= i < k - 1 implies #[trigger] f[i] != 0x0au8 by {
        assert(f[i] == head[i] as u8);
    }
    assert(f[k - 1] == head[k - 1] as u8);
    let digits = f.subrange(0, k).subrange(16, k - 2);
    assert(digits =~= Seq::new(d.len(), |i: int| d[i] as u8));
    assert(digits[0] == d[0] as u8);
    assert(all_digits(digits));
    assert(f.subrange(k, k + 2) =~= seq![0x0du8, 0x0au8]) by {
        assert(f[k] == head[k] as u8);
        assert(f[k + 1] == head[k + 1] as u8);
    }
    assert(f.subrange(k + 2, f.len() as int) =~= encode_utf8(body));
}

// ----- reading a whole message -----

/// Why a message cannot be read.
#[derive(Debug, Clone, Copy, PartialEq, Eq)]
pub enum MessageError {
    /// The header line does not announce a body size.
    InvalidLength,
    /// The input ends before the announced body does.
    Truncated,
    /// The body is not well-formed UTF-8.
    NotUtf8,
}

/// The length of the first line of `b`, through its line feed (all of `b` when it has none).
pub open spec fn line_len(b: Seq<u8>) -> int {
    if line_end(b, 0) < b.len() {
        line_end(b, 0) + 1
    } else {
        b.len() as int
    }
}

/// Reading a message from the bytes `b`: its body (as bytes) or the error, and how many bytes
/// of `b` are consumed. The header line is consumed, then the empty line, then the announced
/// number of bytes; when fewer remain, everything is consumed.
pub open spec fn read_message(b: Seq<u8>) -> (Result<Seq<u8>, MessageError>, int) {
    let k = line_len(b);
    match announced_length(b.subrange(0, k)) {
        None => (Err(MessageError::InvalidLength), k),
        Some(n) => if k + 2 + n > b.len() {
            (Err(MessageError::Truncated), b.len() as int)
        } else {
            let body = b.subrange(k + 2, k + 2 + n);
            if valid_utf8(body) {
                (Ok(body), k + 2 + n)
            } else {
                (Err(MessageError::NotUtf8), k + 2 + n)
            }
        },
    }
}

/// Whether reading a message from `b` stays within it: the header line holds at least the
/// field name and its line end, and when it announces a size, the empty line follows.
pub open spec fn message_readable(b: Seq<u8>) -> bool {
    &&& line_len(b) >= 18
    &&& announced_length(b.subrange(0, line_len(b))) is Some ==> b.len() >= line_len(b) + 2
}

/// std's `str::from_utf8`: the text that `b` encodes, when `b` is well-formed UTF-8.
#[verifier::external_body]
fn utf8_text(b: &[u8]) -> (r: Option<String>)
    ensures
        r is Some <==> valid_utf8(b@),
        r matches Some(t) ==> encode_utf8(t@) == b@,
{
    std::str::from_utf8(b).ok().map(|t| t.to_string())
}

/// Reads one message from the front of `inp`: the header line, the empty line after it, and
/// the body of the size the header announces, as text. `inp` is left just after what was
/// consumed.
pub fn parse_message(inp: &mut &[u8]) -> (r: Result<String, MessageError>)
    requires
        message_readable(old(inp)@),
    ensures
        final(inp)@ == old(inp)@.subrange(read_message(old(inp)@).1, old(inp)@.len() as int),
        r matches Ok(t) ==> read_message(old(inp)@).0 == Ok::<Seq<u8>, MessageError>(encode_utf8(t@)),
        r matches Err(e) ==> read_message(old(inp)@).0 == Err::<Seq<u8>, MessageError>(e),
{
    let b: &[u8] = *inp;
    let e = find_line_end(b, 0);
    proof {
        crate::lsp::position::lemma_line_end_bounds(b@, 0);
    }
    let k = if e < b.len() {
        e + 1
    } else {
        b.len()
    };
    let (line, rest) = b.split_at(k);
    assert(k == line_len(b@));
    assert(line@ =~= b@.subrange(0, k as int));
    match content_length(line) {
        Err(_) => {
            *inp = rest;
            Err(MessageError::InvalidLength)
        },
        Ok(n) => {
            let (_, after) = rest.split_at(2);
            if n > after.len() {
                let (_, empty) = after.split_at(after.len());
                *inp = empty;
                return Err(MessageError::Truncated);
            }
            let (body, tail) = after.split_at(n);
            assert(body@ =~= b@.subrange(k + 2, k + 2 + n));
            *inp = tail;
            match utf8_text(body) {
                Some(t) => Ok(t),
                None => Err(MessageError::NotUtf8),
            }
        },
    }
}

/// Reading a framed message from input that holds it followed by anything else gives back its
/// body, consumes exactly the framed message, and stays within the input.
pub proof fn lemma_read_framed(body: Seq<char>, rest: Seq<u8>)
    requires
        encode_utf8(body).len() <= usize::MAX,
    ensures
        ({
            let f = encode_utf8(framed(body));
            &&& message_readable(f + rest)
            &&& read_message(f + rest) == (
                Ok::<Seq<u8>, MessageError>(encode_utf8(body)),
                f.len() as int,
            )
        }),
{
    lemma_frame_round_trip(body);
    let n = encode_utf8(body).len();
    let f = encode_utf8(framed(body));
    let b = f + rest;
    let k = 18 + decimal(n).len() as int;
    lemma_line_end_at(b, 0, k - 1);
    assert(b.subrange(0, k) =~= f.subrange(0, k));
    assert(b.subrange(k + 2, k + 2 + n) =~= f.subrange(k + 2, f.len() as int));
    vstd::utf8::encode_utf8_valid_utf8(body);
}

proof fn lemma_line_end_at(b: Seq<u8>, i: int, j: int)
    requires
        0 <= i <= j < b.len(),
        b[j] == 0x0au8,
        forall|x: int| i <= x < j ==> #[trigger] b[x] != 0x0au8,
    ensures
        line_end(b, i) == j,
    decreases j - i,
{
    if i < j {
        lemma_line_end_at(b, i + 1, j);
    }
}

} // verus!
