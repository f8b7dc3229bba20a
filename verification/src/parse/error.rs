use crate::parse::text::char_start;
use crate::report::{char_end, lemma_char_end};
use crate::text_scan::utf8_width_exec;
use crate::token::Span;
use vstd::prelude::*;
use vstd::string::{StringExecFns, StringSliceAdditionalSpecFns};

verus! {

broadcast use vstd::utf8::encode_utf8_valid_utf8;

/// A label naming the construct that was being parsed when an error occurred.
#[derive(Debug, Clone, Copy, PartialEq, Eq, Structural)]
pub enum Label {
    /// Inside a formula expression.
    Expression,
    /// At the `)` that closes a parenthesized expression.
    ParenthesizedClose,
}

/// A token the parser expected to find at the error position.
#[derive(Debug, Clone, Copy, PartialEq, Eq, Structural)]
pub enum Expected {
    /// A closing parenthesis.
    CloseParen,
}

/// One piece of context attached to a parse error, innermost first.
#[derive(Debug, Clone, Copy, PartialEq, Eq, Structural)]
pub enum Context {
    Label(Label),
    Expected(Expected),
}

pub open spec fn label_text(l: Label) -> Seq<char> {
    match l {
        Label::Expression => "expression"@,
        Label::ParenthesizedClose => "expr.parenthesized.close"@,
    }
}

pub open spec fn expected_text(e: Expected) -> Seq<char> {
    match e {
        Expected::CloseParen => "`)`"@,
    }
}

impl Label {
    pub fn as_str(&self) -> (r: &'static str)
        ensures
            r@ == label_text(*self),
    {
        match self {
            Label::Expression => "expression",
            Label::ParenthesizedClose => "expr.parenthesized.close",
        }
    }
}

impl Expected {
    /// How the expected token is written in messages.
    pub fn as_str(&self) -> (r: &'static str)
        ensures
            r@ == expected_text(*self),
    {
        match self {
            Expected::CloseParen => "`)`",
        }
    }
}

/// A parse failure that cannot be recovered from: where it happened, and its context.
#[derive(Debug, Clone, PartialEq)]
pub struct ParseError {
    pub offset: usize,
    pub contexts: Vec<Context>,
}

/// The mathematical model of a parse error.
pub struct ParseErrorV {
    pub pos: int,
    pub ctx: Seq<Context>,
}

impl View for ParseError {
    type V = ParseErrorV;

    open spec fn view(&self) -> ParseErrorV {
        ParseErrorV { pos: self.offset as int, ctx: self.contexts@ }
    }
}

/// The outcome of running one parser at one position.
#[derive(Debug, PartialEq)]
pub enum Step<T> {
    /// The parser recognised a value and stopped at the given position.
    Done(T, usize),
    /// The parser does not apply here; another alternative may be tried.
    Backtrack,
    /// The input is malformed; no alternative may be tried.
    Fatal(ParseError),
}

/// The mathematical model of a parser outcome.
pub enum StepV<V> {
    Done(V, int),
    Backtrack,
    Fatal(ParseErrorV),
}

impl<T: View> View for Step<T> {
    type V = StepV<T::V>;

    open spec fn view(&self) -> StepV<T::V> {
        match self {
            Step::Done(v, q) => StepV::Done(v@, *q as int),
            Step::Backtrack => StepV::Backtrack,
            Step::Fatal(e) => StepV::Fatal(e@),
        }
    }
}

/// The first label among the contexts.
pub open spec fn first_label(ctx: Seq<Context>) -> Option<Label>
    decreases ctx.len(),
{
    if ctx.len() == 0 {
        None
    } else {
        match ctx[0] {
            Context::Label(l) => Some(l),
            _ => first_label(ctx.drop_first()),
        }
    }
}

/// The expected tokens among the contexts, in order.
pub open spec fn all_expected(ctx: Seq<Context>) -> Seq<Expected>
    decreases ctx.len(),
{
    if ctx.len() == 0 {
        Seq::empty()
    } else {
        let d = all_expected(ctx.drop_last());
        match ctx.last() {
            Context::Expected(x) => d.push(x),
            _ => d,
        }
    }
}

pub open spec fn expected_list(xs: Seq<Expected>) -> Seq<char>
    decreases xs.len(),
{
    if xs.len() == 0 {
        Seq::empty()
    } else if xs.len() == 1 {
        expected_text(xs[0])
    } else {
        expected_list(xs.drop_last()) + ", "@ + expected_text(xs.last())
    }
}

/// `invalid <first label>`, then on its own line `expected <tokens>`, each part only when
/// there is something to say.
pub open spec fn context_display(ctx: Seq<Context>) -> Seq<char> {
    let head = match first_label(ctx) {
        Some(l) => "invalid "@ + label_text(l),
        None => Seq::empty(),
    };
    let xs = all_expected(ctx);
    if xs.len() == 0 {
        head
    } else {
        head + (if first_label(ctx) is Some { "\n"@ } else { Seq::empty() }) + "expected "@
            + expected_list(xs)
    }
}

impl ParseError {
    /// The byte span of the character at the error offset; empty at the end of the input.
    pub fn char_span(&self, input: &str) -> (r: Span)
        requires
            self.offset <= input.spec_bytes().len(),
            char_start(input.spec_bytes(), self.offset as int),
        ensures
            r.start == self.offset,
            r.end == char_end(input.spec_bytes(), self.offset as int),
    {
        let s = input.as_bytes();
        proof {
            lemma_char_end(s@, self.offset as int);
        }
        let o = self.offset;
        if o < s.len() && !(0x80u8 <= s[o] && s[o] <= 0xbfu8) {
            Span::new(o, o + utf8_width_exec(s[o]))
        } else {
            Span::new(o, o)
        }
    }

    /// What the error's context says: the construct that was invalid and what was expected.
    pub fn describe(&self) -> (r: String)
        ensures
            r@ == context_display(self.contexts@),
    {
        let ctx = &self.contexts;
        let mut label: Option<Label> = None;
        let mut i: usize = 0;
        proof {
            assert(ctx@.skip(0) =~= ctx@);
        }
        while i < ctx.len() && label.is_none()
            invariant
                i <= ctx.len(),
                label is None ==> first_label(ctx@) == first_label(ctx@.skip(i as int)),
                label is Some ==> first_label(ctx@) == label,
            decreases ctx.len() - i,
        {
            proof {
                assert(ctx@.skip(i as int).drop_first() =~= ctx@.skip(i + 1));
                assert(ctx@.skip(i as int)[0] == ctx@[i as int]);
            }
            match ctx[i] {
                Context::Label(l) => {
                    label = Some(l);
                },
                _ => {},
            }
            i = i + 1;
        }
        proof {
            if label is None {
                assert(ctx@.skip(i as int).len() == 0);
            }
        }
        let mut out = String::new();
        match label {
            Some(l) => {
                out.append("invalid ");
                out.append(l.as_str());
            },
            None => {},
        }
        let ghost head = out@;
        let mut list = String::new();
        let mut any = false;
        let mut k: usize = 0;
        while k < ctx.len()
            invariant
                k <= ctx.len(),
                any == (all_expected(ctx@.take(k as int)).len() > 0),
                list@ == expected_list(all_expected(ctx@.take(k as int))),
            decreases ctx.len() - k,
        {
            proof {
                assert(ctx@.take(k + 1).drop_last() =~= ctx@.take(k as int));
                assert(ctx@.take(k + 1).last() == ctx@[k as int]);
            }
            match ctx[k] {
                Context::Expected(x) => {
                    let ghost before = all_expected(ctx@.take(k as int));
                    if any {
                        list.append(", ");
                    }
                    list.append(x.as_str());
                    proof {
                        let after = before.push(x);
                        assert(after.drop_last() =~= before);
                        if before.len() == 0 {
                            assert(list@ =~= expected_text(after[0]));
                        }
                    }
                    any = true;
                },
                _ => {},
            }
            k = k + 1;
        }
        proof {
            assert(ctx@.take(ctx.len() as int) =~= ctx@);
        }
        if any {
            if label.is_some() {
                out.append("\n");
            }
            out.append("expected ");
            out.append(list.as_str());
            proof {
                let tail = if first_label(ctx@) is Some { "\n"@ } else { Seq::<char>::empty() };
                assert(out@ =~= head + tail + "expected "@ + expected_list(all_expected(ctx@)));
            }
        }
        out
    }
}

} // verus!
