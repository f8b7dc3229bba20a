use crate::report::{line_start, newlines_before, position_of};
use vstd::prelude::*;
use vstd::string::StringSliceAdditionalSpecFns;

verus! {

/// The offset of the first line feed at or after `b`, or the end of the input.
pub open spec fn line_end(s: Seq<u8>, b: int) -> int
    decreases s.len() - b,
{
    if b < 0 || b >= s.len() {
        s.len() as int
    } else if s[b] == 0x0au8 {
        b
    } else {
        line_end(s, b + 1)
    }
}

/// The offset where the zero-based line `n` starts, if the input has that many lines.
pub open spec fn line_begin(s: Seq<u8>, n: nat) -> Option<int>
    decreases n,
{
    if n == 0 {
        Some(0)
    } else {
        match line_begin(s, (n - 1) as nat) {
            Some(b) => if line_end(s, b) < s.len() {
                Some(line_end(s, b) + 1)
            } else {
                None
            },
            None => None,
        }
    }
}

/// The byte offset of the position at `line` and byte column `character`, where the column is
/// clamped to the end of the line; none when the input has no such line.
pub open spec fn offset_at(s: Seq<u8>, line: nat, character: nat) -> Option<int> {
    match line_begin(s, line) {
        Some(b) => Some(
            b + if character < line_end(s, b) - b {
                character as int
            } else {
                line_end(s, b) - b
            },
        ),
        None => None,
    }
}

pub(crate) proof fn lemma_line_end_bounds(s: Seq<u8>, b: int)
    requires
        0 <= b <= s.len(),
    ensures
        b <= line_end(s, b) <= s.len(),
        line_end(s, b) < s.len() ==> s[line_end(s, b)] == 0x0au8,
        forall|i: int| b <= i < line_end(s, b) ==> s[i] != 0x0au8,
    decreases s.len() - b,
{
    if b < s.len() && s[b] != 0x0au8 {
        lemma_line_end_bounds(s, b + 1);
    }
}

proof fn lemma_line_begin_bounds(s: Seq<u8>, n: nat)
    ensures
        line_begin(s, n) matches Some(b) ==> 0 <= b <= s.len(),
    decreases n,
{
    if n > 0 {
        lemma_line_begin_bounds(s, (n - 1) as nat);
        if let Some(b) = line_begin(s, (n - 1) as nat) {
            lemma_line_end_bounds(s, b);
        }
    }
}

pub(crate) fn find_line_end(s: &[u8], b: usize) -> (e: usize)
    requires
        b <= s@.len(),
    ensures
        e == line_end(s@, b as int),
{
    let mut i = b;
    while i < s.len() && s[i] != 0x0au8
        invariant
            b <= i <= s@.len(),
            line_end(s@, i as int) == line_end(s@, b as int),
        decreases s@.len() - i,
    {
        i = i + 1;
    }
    i
}

/// The byte offset of the position at zero-based `line` and byte column `character` in
/// `text`; the column is clamped to the end of its line, and there is none when `text` has
/// fewer lines.
pub fn offset_for_position(text: &str, line: usize, character: usize) -> (r: Option<usize>)
    ensures
        r matches Some(o) ==> offset_at(text.spec_bytes(), line as nat, character as nat) == Some(o as int),
        r is None <==> offset_at(text.spec_bytes(), line as nat, character as nat) is None,
{
    let s = text.as_bytes();
    let mut b: usize = 0;
    let mut n: usize = 0;
    while n < line
        invariant
            n <= line,
            s@ == text.spec_bytes(),
            b <= s@.len(),
            line_begin(s@, n as nat) == Some(b as int),
        decreases line - n,
    {
        let e = find_line_end(s, b);
        proof {
            lemma_line_end_bounds(s@, b as int);
        }
        if e == s.len() {
            proof {
                assert(line_begin(s@, (n + 1) as nat) is None);
                lemma_none_stays(s@, (n + 1) as nat, line as nat);
            }
            return None;
        }
        b = e + 1;
        n = n + 1;
    }
    let e = find_line_end(s, b);
    proof {
        lemma_line_end_bounds(s@, b as int);
    }
    let width = e - b;
    if character < width {
        Some(b + character)
    } else {
        Some(e)
    }
}

/// A position that has an offset has one within the input.
pub proof fn lemma_offset_at_bounds(s: Seq<u8>, line: nat, character: nat)
    ensures
        offset_at(s, line, character) matches Some(o) ==> 0 <= o <= s.len(),
{
    lemma_line_begin_bounds(s, line);
    if let Some(b) = line_begin(s, line) {
        lemma_line_end_bounds(s, b);
    }
}

proof fn lemma_none_stays(s: Seq<u8>, m: nat, n: nat)
    requires
        m <= n,
        line_begin(s, m) is None,
    ensures
        line_begin(s, n) is None,
    decreases n - m,
{
    if m < n {
        lemma_none_stays(s, (m + 1) as nat, n);
    }
}

proof fn lemma_line_start_begins(s: Seq<u8>, k: int)
    requires
        0 <= k <= s.len(),
    ensures
        line_begin(s, newlines_before(s, k)) == Some(line_start(s, k)),
        0 <= line_start(s, k) <= k,
        k <= line_end(s, line_start(s, k)),
        forall|i: int| line_start(s, k) <= i < k ==> s[i] != 0x0au8,
    decreases k,
{
    if k > 0 {
        lemma_line_start_begins(s, k - 1);
        let p = line_start(s, k - 1);
        lemma_line_end_bounds(s, p);
        if s[k - 1] == 0x0au8 {
            assert(line_end(s, p) == k - 1);
            lemma_line_end_bounds(s, k);
        } else {
            assert(line_end(s, p) != k - 1);
        }
    } else {
        lemma_line_end_bounds(s, 0);
    }
}

/// Turning a byte offset into a line and column and back gives the offset again (clamped to
/// the end of the input, as the conversion to a position clamps it).
pub proof fn lemma_position_round_trip(s: Seq<u8>, o: int)
    requires
        0 <= o,
    ensures
        ({
            let (line, column) = position_of(s, o);
            let c = if o < s.len() { o } else { s.len() as int };
            line >= 0 && column >= 0 && offset_at(s, line as nat, column as nat) == Some(c)
        }),
{
    let c = if o < s.len() { o } else { s.len() as int };
    lemma_line_start_begins(s, c);
}

} // verus!
