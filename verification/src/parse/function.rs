use crate::function_names::{function_name_at, function_name_text, name_at, FunctionName, FUNCTION_COUNT};
use crate::parse::literal_value::{alpha_end, alpha_end_exec, lemma_alpha_end};
use crate::parse::utils::{is_alpha_byte, lemma_trivia_end, skip_trivia, trivia_end};
use crate::parse::error::{ParseError, ParseErrorV, Step, StepV};
use crate::parse::expression::{args_agree, args_exec, args_spec, function_exec, function_spec};
use crate::parse::text::{char_start, lemma_trivia_char_start, text, text_of};
use crate::token::{exprs_view, ExprV, Function, FunctionArgumentList, Span};
use vstd::prelude::*;
use vstd::string::{StrSliceExecFns, StringSliceAdditionalSpecFns};

verus! {

broadcast use vstd::utf8::encode_utf8_valid_utf8;

/// The error of looking up a name that is not a function.
#[derive(Debug, Clone, Copy, PartialEq, Eq, Structural)]
pub struct UnknownFunction;

pub open spec fn ascii_upper(b: u8) -> u8 {
    if 0x61u8 <= b <= 0x7au8 {
        (b - 32) as u8
    } else {
        b
    }
}

/// Whether `word` spells the name of `f`, ignoring ASCII case.
pub open spec fn names_function(word: Seq<u8>, f: FunctionName) -> bool {
    function_name_text(f).len() == word.len() && forall|i: int|
        0 <= i < word.len() ==> function_name_text(f)[i] == (ascii_upper(word[i]) as char)
}

/// The first function, in declaration order from position `i`, whose name `word` spells.
pub open spec fn lookup_from(word: Seq<u8>, i: int) -> Option<FunctionName>
    decreases FUNCTION_COUNT - i,
{
    if i < 0 || i >= FUNCTION_COUNT {
        None
    } else if names_function(word, function_name_at(i)) {
        Some(function_name_at(i))
    } else {
        lookup_from(word, i + 1)
    }
}

/// The function whose name `word` spells, ignoring ASCII case.
pub open spec fn lookup_function(word: Seq<u8>) -> Option<FunctionName> {
    lookup_from(word, 0)
}

/// A function name with the whitespace and comments around it: the function, where its name
/// starts and ends, and where parsing continues.
pub open spec fn function_name_spec(s: Seq<u8>, p: int) -> Option<(FunctionName, int, int, int)> {
    let t = trivia_end(s, p);
    let a = alpha_end(s, t);
    if a > t && lookup_function(s.subrange(t, a)) is Some {
        Some((lookup_function(s.subrange(t, a))->0, t, a, trivia_end(s, a)))
    } else {
        None
    }
}

fn upper_byte(c: u8) -> (r: u8)
    ensures
        r == ascii_upper(c),
{
    if 0x61u8 <= c && c <= 0x7au8 {
        c - 32
    } else {
        c
    }
}

fn names_function_exec(b: &[u8], t: usize, a: usize, f: FunctionName) -> (r: bool)
    requires
        t <= a <= b.len(),
    ensures
        r == names_function(b@.subrange(t as int, a as int), f),
{
    let ghost word = b@.subrange(t as int, a as int);
    let name = f.as_str();
    let len = name.unicode_len();
    if len != a - t {
        return false;
    }
    let mut j: usize = 0;
    while j < len
        invariant
            j <= len,
            len == a - t,
            len == name@.len(),
            name@ == function_name_text(f),
            word == b@.subrange(t as int, a as int),
            t <= a <= b.len(),
            forall|i: int| 0 <= i < j ==> function_name_text(f)[i] == (ascii_upper(word[i]) as char),
        decreases len - j,
    {
        let c = name.get_char(j);
        let u = upper_byte(b[t + j]);
        if c != (u as char) {
            return false;
        }
        j = j + 1;
    }
    true
}

/// The function whose name is spelled by the bytes from `t` to `a`, ignoring ASCII case.
pub(crate) fn lookup_exec(b: &[u8], t: usize, a: usize) -> (r: Option<FunctionName>)
    requires
        t <= a <= b.len(),
    ensures
        r == lookup_function(b@.subrange(t as int, a as int)),
{
    let ghost word = b@.subrange(t as int, a as int);
    let mut i: usize = 0;
    while i < FUNCTION_COUNT
        invariant
            i <= FUNCTION_COUNT,
            t <= a <= b.len(),
            word == b@.subrange(t as int, a as int),
            lookup_function(word) == lookup_from(word, i as int),
        decreases FUNCTION_COUNT - i,
    {
        let f = name_at(i);
        if names_function_exec(b, t, a, f) {
            return Some(f);
        }
        i = i + 1;
    }
    None
}

impl std::str::FromStr for FunctionName {
    type Err = UnknownFunction;

    /// Reads a function name, ignoring ASCII case (see `FunctionName::from_name`).
    fn from_str(s: &str) -> (r: Result<FunctionName, UnknownFunction>)
        ensures
            r matches Ok(f) ==> lookup_function(s.spec_bytes()) == Some(f),
            r is Err ==> lookup_function(s.spec_bytes()) is None,
    {
        FunctionName::from_name(s)
    }
}

impl FunctionName {
    /// The function named `s`, compared without regard to ASCII case.
    pub fn from_name(s: &str) -> (r: Result<FunctionName, UnknownFunction>)
        ensures
            r matches Ok(f) ==> lookup_function(s.spec_bytes()) == Some(f),
            r is Err ==> lookup_function(s.spec_bytes()) is None,
    {
        let b = s.as_bytes();
        proof {
            assert(b@.subrange(0, b@.len() as int) =~= b@);
        }
        match lookup_exec(b, 0, b.len()) {
            Some(f) => Ok(f),
            None => Err(UnknownFunction),
        }
    }
}

/// Recognises a function name at `p`, with the whitespace and comments around it.
pub(crate) fn function_name_exec(b: &[u8], p: usize) -> (r: Option<(FunctionName, usize, usize, usize)>)
    requires
        p <= b.len(),
    ensures
        r matches Some((f, t, a, u)) ==> function_name_spec(b@, p as int) == Some(
            (f, t as int, a as int, u as int),
        ),
        r is None ==> function_name_spec(b@, p as int) is None,
{
    let t = skip_trivia(b, p);
    proof {
        lemma_trivia_end(b@, p as int);
        lemma_alpha_end(b@, t as int);
    }
    let mut a = t;
    while a < b.len() && is_alpha_byte(b[a])
        invariant
            t <= a <= b.len(),
            alpha_end(b@, t as int) == alpha_end(b@, a as int),
        decreases b.len() - a,
    {
        a = a + 1;
    }
    if a == t {
        return None;
    }
    match lookup_exec(b, t, a) {
        Some(f) => {
            let u = skip_trivia(b, a);
            Some((f, t, a, u))
        },
        None => None,
    }
}

/// Parses a function name at `pos`, with the whitespace and comments around it: the function,
/// the span of its name, and where parsing continues.
pub fn parse_function_name(input: &str, pos: usize) -> (r: Option<((FunctionName, Span), usize)>)
    requires
        pos <= input.spec_bytes().len(),
    ensures
        r matches Some(((f, sp), u)) ==> function_name_spec(input.spec_bytes(), pos as int) == Some(
            (f, sp.start as int, sp.end as int, u as int),
        ),
        r is None ==> function_name_spec(input.spec_bytes(), pos as int) is None,
{
    let b = input.as_bytes();
    match function_name_exec(b, pos) {
        Some((f, t, a, u)) => Some(((f, Span::new(t, a)), u)),
        None => None,
    }
}

/// An argument list with the whitespace and comments before its opening parenthesis.
pub open spec fn args_at_spec(s: Seq<u8>, p: int) -> StepV<(Seq<ExprV>, Span, int)> {
    let t = trivia_end(s, p);
    if 0 <= t < s.len() && s[t] == 0x28u8 {
        args_spec(s, t)
    } else {
        StepV::Backtrack
    }
}

/// Parses a parenthesized, comma-separated argument list at `pos`: the arguments and where
/// parsing continues. `Ok(None)` when no `(` opens a list there.
pub fn parse_function_args(input: &str, pos: usize) -> (r: Result<Option<(FunctionArgumentList, usize)>, ParseError>)
    requires
        pos <= input.spec_bytes().len(),
    ensures
        r matches Ok(Some((al, w))) ==> args_at_spec(input.spec_bytes(), pos as int) matches StepV::Done(
            (args, sp, _),
            w2,
        ) && exprs_view(al.0@) == args && al.1 == sp && w == w2,
        r matches Ok(None) ==> args_at_spec(input.spec_bytes(), pos as int) is Backtrack,
        r matches Err(e) ==> args_at_spec(input.spec_bytes(), pos as int) == StepV::<
            (Seq<ExprV>, Span, int),
        >::Fatal(e@),
{
    let b = input.as_bytes();
    let t = skip_trivia(b, pos);
    proof {
        lemma_trivia_end(b@, pos as int);
    }
    if t < b.len() && b[t] == 0x28u8 {
        match args_exec(input, b, t) {
            Step::Done((al, _), w) => Ok(Some((al, w))),
            Step::Fatal(e) => Err(e),
            Step::Backtrack => Ok(None),
        }
    } else {
        Ok(None)
    }
}

/// Parses a function call at `pos`, with the whitespace and comments around it: the call, its
/// span (from the name to the closing parenthesis), and where parsing continues. `Ok(None)`
/// when no known function name followed by `(` stands there.
pub fn parse_function(input: &str, pos: usize) -> (r: Result<Option<((Function, Span), usize)>, ParseError>)
    requires
        char_start(input.spec_bytes(), pos as int),
    ensures
        r matches Ok(Some(((f, sp), w))) ==> function_spec(input.spec_bytes(), pos as int) == StepV::Done(
            ExprV::Function {
                fname: f.fname,
                args: exprs_view(f.args.0@),
                args_span: f.args.1,
                span: sp,
            },
            w as int,
        ),
        r matches Ok(None) ==> function_spec(input.spec_bytes(), pos as int) is Backtrack,
        r matches Err(e) ==> function_spec(input.spec_bytes(), pos as int) == StepV::<ExprV>::Fatal(
            e@,
        ),
{
    let b = input.as_bytes();
    match function_exec(input, b, pos) {
        Step::Done(e, w) => match e {
            crate::token::Expression::Function(f, sp) => Ok(Some(((*f, sp), w))),
            _ => {
                proof {
                    assert(false);
                }
                Ok(None)
            },
        },
        Step::Fatal(e) => Err(e),
        Step::Backtrack => Ok(None),
    }
}

/// The names in `(name, name, ...)`: letters only, commas with optional whitespace and
/// comments around them, no space inside the parentheses.
pub open spec fn name_list_spec(s: Seq<u8>, p: int) -> Option<(Seq<Seq<char>>, int)> {
    if 0 <= p < s.len() && s[p] == 0x28u8 {
        let a = alpha_end(s, p + 1);
        if a > p + 1 {
            let (rest, end) = name_list_tail(s, a);
            if end < s.len() && s[end] == 0x29u8 {
                Some((seq![text(s, p + 1, a)] + rest, end + 1))
            } else {
                None
            }
        } else if p + 1 < s.len() && s[p + 1] == 0x29u8 {
            Some((Seq::empty(), p + 2))
        } else {
            None
        }
    } else {
        None
    }
}

/// The names after `e`, each following a comma, and where the last one ends.
pub open spec fn name_list_tail(s: Seq<u8>, e: int) -> (Seq<Seq<char>>, int)
    decreases s.len() - e,
{
    if !(0 <= e <= s.len()) {
        (Seq::empty(), e)
    } else {
        let t = trivia_end(s, e);
        proof {
            lemma_trivia_end(s, e);
        }
        if t < s.len() && s[t] == 0x2cu8 {
            let c = trivia_end(s, t + 1);
            proof {
                lemma_trivia_end(s, t + 1);
                lemma_alpha_end(s, c);
            }
            let a = alpha_end(s, c);
            if a > c {
                let (rest, end) = name_list_tail(s, a);
                (seq![text(s, c, a)] + rest, end)
            } else {
                (Seq::empty(), e)
            }
        } else {
            (Seq::empty(), e)
        }
    }
}

/// Parses `(name, name, ...)` at `pos`: the names and where parsing continues.
pub fn parser_thing(input: &str, pos: usize) -> (r: Option<(Vec<String>, usize)>)
    requires
        pos <= input.spec_bytes().len(),
    ensures
        r matches Some((names, e)) ==> name_list_spec(input.spec_bytes(), pos as int) == Some(
            (names@.map_values(|n: String| n@), e as int),
        ),
        r is None ==> name_list_spec(input.spec_bytes(), pos as int) is None,
{
    let b = input.as_bytes();
    let ghost s = b@;
    if !(pos < b.len() && b[pos] == 0x28u8) {
        return None;
    }
    let a = alpha_end_exec(b, pos + 1);
    if a == pos + 1 {
        if pos + 1 < b.len() && b[pos + 1] == 0x29u8 {
            let none: Vec<String> = Vec::new();
            proof {
                assert(none@.map_values(|n: String| n@) =~= Seq::<Seq<char>>::empty());
            }
            return Some((none, pos + 2));
        }
        return None;
    }
    proof {
        lemma_alpha_end(s, pos + 1);
        crate::parse::text::lemma_after_ascii_char_start(s, pos + 1);
        assert(crate::parse::utils::is_alpha(s[a - 1]));
        crate::parse::text::lemma_after_ascii_char_start(s, a as int);
    }
    let mut names: Vec<String> = Vec::new();
    names.push(text_of(input, b, pos + 1, a));
    let mut end = a;
    let mut go = true;
    while go
        invariant
            b@ == input.spec_bytes(),
            s == b@,
            pos + 1 < a <= end <= b.len(),
            s[end - 1] < 0x80u8,
            ({
                let (rest, fin) = name_list_tail(s, a as int);
                let (rest2, fin2) = name_list_tail(s, end as int);
                let here = if go { rest2 } else { Seq::empty() };
                let stop = if go { fin2 } else { end as int };
                names@.map_values(|n: String| n@) + here == seq![text(s, pos + 1, a as int)] + rest
                    && fin == stop
            }),
        decreases b.len() - end + (if go { 1int } else { 0int }),
    {
        let t = skip_trivia(b, end);
        proof {
            lemma_trivia_end(s, end as int);
        }
        if t < b.len() && b[t] == 0x2cu8 {
            let c = skip_trivia(b, t + 1);
            proof {
                lemma_trivia_end(s, t + 1);
                lemma_alpha_end(s, c as int);
            }
            let a2 = alpha_end_exec(b, c);
            if a2 > c {
                proof {
                    crate::parse::text::lemma_trivia_char_start(s, t + 1);
                    crate::parse::text::lemma_after_ascii_char_start(s, t + 1);
                    crate::parse::text::lemma_trivia_char_start(s, t + 1);
                    assert(crate::parse::utils::is_alpha(s[a2 - 1]));
                    crate::parse::text::lemma_after_ascii_char_start(s, a2 as int);
                }
                let ghost old = names@.map_values(|n: String| n@);
                names.push(text_of(input, b, c, a2));
                proof {
                    let (rest2, fin2) = name_list_tail(s, end as int);
                    let (rest3, fin3) = name_list_tail(s, a2 as int);
                    assert(rest2 == seq![text(s, c as int, a2 as int)] + rest3);
                    assert(names@.map_values(|n: String| n@) =~= old.push(text(s, c as int, a2 as int)));
                    assert(names@.map_values(|n: String| n@) + rest3 =~= old + rest2);
                }
                end = a2;
            } else {
                proof {
                    assert(names@.map_values(|n: String| n@) + Seq::<Seq<char>>::empty() =~= names@.map_values(|n: String| n@));
                }
                go = false;
            }
        } else {
            proof {
                assert(names@.map_values(|n: String| n@) + Seq::<Seq<char>>::empty() =~= names@.map_values(|n: String| n@));
            }
            go = false;
        }
    }
    if end < b.len() && b[end] == 0x29u8 {
        Some((names, end + 1))
    } else {
        None
    }
}

} // verus!
