use crate::parse::error::{Expected, Label};
use crate::parse::text::char_start;
use crate::text_scan::{code_at, lemma_code_at_ascii, lemma_prev_non_ws, prev_non_ws, prev_non_ws_exec};
use crate::parse::text::lemma_after_ascii_char_start;
use crate::token::Span;
use vstd::prelude::*;
use vstd::string::{StringExecFns, StringSliceAdditionalSpecFns};

verus! {

/// What the hint rules look at: the source, where the error is, and the parser's context.
pub struct HintContext<'a> {
    pub input: &'a str,
    pub offset: usize,
    pub end_offset: usize,
    pub expected: &'a [Expected],
    pub labels: &'a [Label],
}

/// A proposed fix for a parse error: replace the text of `span` with `replacement`.
#[derive(Debug, Clone, PartialEq)]
pub struct Suggestion {
    pub id: &'static str,
    pub message: String,
    pub replacement: Option<String>,
    pub span: Option<Span>,
    pub priority: u8,
}

/// The mathematical model of a suggestion.
pub struct SuggestionV {
    pub id: Seq<char>,
    pub message: Seq<char>,
    pub replacement: Option<Seq<char>>,
    pub span: Option<Span>,
    pub priority: int,
}

impl View for Suggestion {
    type V = SuggestionV;

    open spec fn view(&self) -> SuggestionV {
        SuggestionV {
            id: self.id@,
            message: self.message@,
            replacement: match self.replacement {
                Some(r) => Some(r@),
                None => None,
            },
            span: self.span,
            priority: self.priority as int,
        }
    }
}

/// The byte that starts the character at `o`, if a character starts there.
pub open spec fn token_at(s: Seq<u8>, o: int) -> Option<u8> {
    if 0 <= o < s.len() && char_start(s, o) {
        Some(s[o])
    } else {
        None
    }
}

/// Whether the text at `o` begins with the two bytes `a b`.
pub open spec fn starts_with2(s: Seq<u8>, o: int, a: u8, b: u8) -> bool {
    0 <= o && o + 1 < s.len() && s[o] == a && s[o + 1] == b
}

pub open spec fn suggestion(
    id: Seq<char>,
    message: Seq<char>,
    replacement: Seq<char>,
    span: Span,
    priority: int,
) -> SuggestionV {
    SuggestionV { id, message, replacement: Some(replacement), span: Some(span), priority }
}

/// A lone `|` inside an expression: suggest `||`.
pub open spec fn single_pipe_rule(s: Seq<u8>, o: int, eo: int, labels: Seq<Label>) -> Option<SuggestionV> {
    if token_at(s, o) == Some(0x7cu8) && labels.contains(Label::Expression) && !starts_with2(
        s,
        o,
        0x7cu8,
        0x7cu8,
    ) {
        Some(
            suggestion(
                "replace-single-pipe-with-double-pipe"@,
                "did you mean `||`?"@,
                "||"@,
                Span { start: o as usize, end: eo as usize },
                100,
            ),
        )
    } else {
        None
    }
}

/// A lone `!` where no expression can continue: suggest `!=`.
pub open spec fn lone_bang_rule(s: Seq<u8>, o: int, eo: int) -> Option<SuggestionV> {
    if token_at(s, o) == Some(0x21u8) && !starts_with2(s, o, 0x21u8, 0x3du8) {
        Some(
            suggestion(
                "replace-lone-bang-with-not-equal"@,
                "did you mean `!=`?"@,
                "!="@,
                Span { start: o as usize, end: eo as usize },
                95,
            ),
        )
    } else {
        None
    }
}

/// Input ends where a parenthesized expression still expects `)`: suggest adding it.
pub open spec fn missing_close_paren_rule(
    s: Seq<u8>,
    o: int,
    eo: int,
    expected: Seq<Expected>,
    labels: Seq<Label>,
) -> Option<SuggestionV> {
    if expected.contains(Expected::CloseParen) && labels.contains(Label::ParenthesizedClose) && o
        >= s.len() {
        Some(
            suggestion(
                "insert-missing-closing-paren"@,
                "try adding a closing `)`"@,
                ")"@,
                Span { start: o as usize, end: eo as usize },
                90,
            ),
        )
    } else {
        None
    }
}

/// A `)` right after a comma (white space aside): suggest removing the comma.
pub open spec fn trailing_comma_rule(s: Seq<u8>, o: int) -> Option<SuggestionV> {
    if token_at(s, o) == Some(0x29u8) {
        match prev_non_ws(s, o) {
            Some((j, c)) => if c == 0x2c {
                Some(
                    suggestion(
                        "remove-trailing-comma"@,
                        "remove trailing comma"@,
                        ""@,
                        Span { start: j as usize, end: (j + 1) as usize },
                        97,
                    ),
                )
            } else {
                None
            },
            None => None,
        }
    } else {
        None
    }
}

pub open spec fn starts_argument(b: u8) -> bool {
    (0x30u8 <= b <= 0x39u8) || (0x41u8 <= b <= 0x5au8) || (0x61u8 <= b <= 0x7au8) || b == 0x5fu8
        || b == 0x22u8 || b == 0x28u8 || b == 0x21u8 || b == 0x2du8
}

pub open spec fn ends_argument(c: u32) -> bool {
    (0x30 <= c <= 0x39) || (0x41 <= c <= 0x5a) || (0x61 <= c <= 0x7a) || c == 0x5f || c == 0x29
        || c == 0x22
}

/// Whether a line feed occurs among the bytes from `a` to `b`.
pub open spec fn has_newline(s: Seq<u8>, a: int, b: int) -> bool {
    exists|i: int| a <= i < b && 0 <= i < s.len() && s[i] == 0x0au8
}

/// Two arguments on separate lines with no comma between them, where `)` was expected:
/// suggest inserting a comma after the first.
pub open spec fn missing_comma_rule(s: Seq<u8>, o: int, expected: Seq<Expected>) -> Option<SuggestionV> {
    match token_at(s, o) {
        Some(t) => if !expected.contains(Expected::CloseParen) || !starts_argument(t) {
            None
        } else {
            match prev_non_ws(s, o) {
                Some((j, c)) => if c == 0x2c || !ends_argument(c) {
                    None
                } else if !has_newline(s, j + 1, o) {
                    None
                } else {
                    Some(
                        suggestion(
                            "insert-missing-comma-between-args"@,
                            "did you mean to add a comma between arguments?"@,
                            ","@,
                            Span { start: (j + 1) as usize, end: (j + 1) as usize },
                            96,
                        ),
                    )
                },
                None => None,
            }
        },
        None => None,
    }
}

/// The suggestions of every rule, in the order the rules are consulted.
pub open spec fn rule_results(
    s: Seq<u8>,
    o: int,
    eo: int,
    expected: Seq<Expected>,
    labels: Seq<Label>,
) -> Seq<Option<SuggestionV>> {
    seq![
        single_pipe_rule(s, o, eo, labels),
        trailing_comma_rule(s, o),
        missing_comma_rule(s, o, expected),
        lone_bang_rule(s, o, eo),
        missing_close_paren_rule(s, o, eo, expected, labels),
    ]
}

/// The suggestion of highest priority among `rs` (the last one, among equals).
pub open spec fn best_of(rs: Seq<Option<SuggestionV>>) -> Option<SuggestionV>
    decreases rs.len(),
{
    if rs.len() == 0 {
        None
    } else {
        pick_spec(best_of(rs.drop_last()), rs.last())
    }
}

/// One step of `best_of`: keep `best` unless `x` has at least its priority.
pub open spec fn pick_spec(best: Option<SuggestionV>, x: Option<SuggestionV>) -> Option<SuggestionV> {
    match x {
        Some(x) => match best {
            Some(b) => if x.priority >= b.priority {
                Some(x)
            } else {
                Some(b)
            },
            None => Some(x),
        },
        None => best,
    }
}

pub open spec fn best_suggestion(
    s: Seq<u8>,
    o: int,
    eo: int,
    expected: Seq<Expected>,
    labels: Seq<Label>,
) -> Option<SuggestionV> {
    best_of(rule_results(s, o, eo, expected, labels))
}

/// `best_of` picks one of the suggestions, and none has a higher priority.
pub proof fn lemma_best_of(rs: Seq<Option<SuggestionV>>)
    ensures
        best_of(rs) is None <==> (forall|i: int| 0 <= i < rs.len() ==> rs[i] is None),
        best_of(rs) matches Some(b) ==> (exists|i: int| 0 <= i < rs.len() && rs[i] == Some(b)),
        best_of(rs) matches Some(b) ==> (forall|i: int|
            0 <= i < rs.len() && rs[i] is Some ==> rs[i]->0.priority <= b.priority),
    decreases rs.len(),
{
    if rs.len() > 0 {
        let init = rs.drop_last();
        lemma_best_of(init);
        assert(forall|i: int| 0 <= i < init.len() ==> init[i] == rs[i]);
        if best_of(rs) is None {
        }
        match best_of(rs) {
            Some(b) => {
                if rs.last() == Some(b) {
                    assert(rs[rs.len() - 1] == Some(b));
                }
            },
            None => {},
        }
    }
}

fn contains_label(labels: &[Label], l: Label) -> (r: bool)
    ensures
        r == labels@.contains(l),
{
    let mut i: usize = 0;
    while i < labels.len()
        invariant
            i <= labels.len(),
            forall|k: int| 0 <= k < i ==> labels@[k] != l,
        decreases labels.len() - i,
    {
        if labels[i] == l {
            proof {
                assert(labels@[i as int] == l);
            }
            return true;
        }
        i = i + 1;
    }
    false
}

fn contains_expected(expected: &[Expected], x: Expected) -> (r: bool)
    ensures
        r == expected@.contains(x),
{
    let mut i: usize = 0;
    while i < expected.len()
        invariant
            i <= expected.len(),
            forall|k: int| 0 <= k < i ==> expected@[k] != x,
        decreases expected.len() - i,
    {
        if expected[i] == x {
            proof {
                assert(expected@[i as int] == x);
            }
            return true;
        }
        i = i + 1;
    }
    false
}

fn token_at_exec(s: &[u8], o: usize) -> (r: Option<u8>)
    ensures
        r == token_at(s@, o as int),
{
    if o < s.len() && !(0x80u8 <= s[o] && s[o] <= 0xbfu8) {
        Some(s[o])
    } else {
        None
    }
}

fn starts_with2_exec(s: &[u8], o: usize, a: u8, b: u8) -> (r: bool)
    ensures
        r == starts_with2(s@, o as int, a, b),
{
    o < s.len() && s.len() - o > 1 && s[o] == a && s[o + 1] == b
}

fn make(id: &'static str, message: &str, replacement: &str, span: Span, priority: u8) -> (r: Suggestion)
    ensures
        r@ == suggestion(id@, message@, replacement@, span, priority as int),
{
    Suggestion {
        id,
        message: String::from_str(message),
        replacement: Some(String::from_str(replacement)),
        span: Some(span),
        priority,
    }
}

fn single_pipe(ctx: &HintContext) -> (r: Option<Suggestion>)
    ensures
        opt_view(r) == single_pipe_rule(ctx.input.spec_bytes(), ctx.offset as int, ctx.end_offset as int, ctx.labels@),
{
    let s = ctx.input.as_bytes();
    if token_at_exec(s, ctx.offset) == Some(0x7cu8) && contains_label(ctx.labels, Label::Expression)
        && !starts_with2_exec(s, ctx.offset, 0x7cu8, 0x7cu8) {
        Some(make("replace-single-pipe-with-double-pipe", "did you mean `||`?", "||", Span::new(ctx.offset, ctx.end_offset), 100))
    } else {
        None
    }
}

fn lone_bang(ctx: &HintContext) -> (r: Option<Suggestion>)
    ensures
        opt_view(r) == lone_bang_rule(ctx.input.spec_bytes(), ctx.offset as int, ctx.end_offset as int),
{
    let s = ctx.input.as_bytes();
    if token_at_exec(s, ctx.offset) == Some(0x21u8) && !starts_with2_exec(s, ctx.offset, 0x21u8, 0x3du8) {
        Some(make("replace-lone-bang-with-not-equal", "did you mean `!=`?", "!=", Span::new(ctx.offset, ctx.end_offset), 95))
    } else {
        None
    }
}

fn missing_close_paren(ctx: &HintContext) -> (r: Option<Suggestion>)
    ensures
        opt_view(r) == missing_close_paren_rule(ctx.input.spec_bytes(), ctx.offset as int, ctx.end_offset as int, ctx.expected@, ctx.labels@),
{
    let s = ctx.input.as_bytes();
    if contains_expected(ctx.expected, Expected::CloseParen) && contains_label(ctx.labels, Label::ParenthesizedClose)
        && ctx.offset >= s.len() {
        Some(make("insert-missing-closing-paren", "try adding a closing `)`", ")", Span::new(ctx.offset, ctx.end_offset), 90))
    } else {
        None
    }
}

fn trailing_comma(ctx: &HintContext) -> (r: Option<Suggestion>)
    ensures
        opt_view(r) == trailing_comma_rule(ctx.input.spec_bytes(), ctx.offset as int),
{
    let s = ctx.input.as_bytes();
    if token_at_exec(s, ctx.offset) != Some(0x29u8) {
        return None;
    }
    proof {
        lemma_prev_non_ws(s@, ctx.offset as int);
    }
    match prev_non_ws_exec(s, ctx.offset) {
        Some((j, c)) => if c == 0x2c {
            Some(make("remove-trailing-comma", "remove trailing comma", "", Span::new(j, j + 1), 97))
        } else {
            None
        },
        None => None,
    }
}

fn starts_argument_exec(b: u8) -> (r: bool)
    ensures
        r == starts_argument(b),
{
    (0x30u8 <= b && b <= 0x39u8) || (0x41u8 <= b && b <= 0x5au8) || (0x61u8 <= b && b <= 0x7au8)
        || b == 0x5fu8 || b == 0x22u8 || b == 0x28u8 || b == 0x21u8 || b == 0x2du8
}

fn ends_argument_exec(c: u32) -> (r: bool)
    ensures
        r == ends_argument(c),
{
    (0x30 <= c && c <= 0x39) || (0x41 <= c && c <= 0x5a) || (0x61 <= c && c <= 0x7a) || c == 0x5f
        || c == 0x29 || c == 0x22
}

fn has_newline_exec(s: &[u8], a: usize, b: usize) -> (r: bool)
    requires
        b <= s.len(),
    ensures
        r == has_newline(s@, a as int, b as int),
{
    let mut i = a;
    while i < b
        invariant
            a <= i,
            b <= s.len(),
            forall|k: int| a <= k < i ==> s@[k] != 0x0au8,
        decreases b - i,
    {
        if s[i] == 0x0au8 {
            return true;
        }
        i = i + 1;
    }
    false
}

fn missing_comma(ctx: &HintContext) -> (r: Option<Suggestion>)
    ensures
        opt_view(r) == missing_comma_rule(ctx.input.spec_bytes(), ctx.offset as int, ctx.expected@),
{
    let s = ctx.input.as_bytes();
    let t = match token_at_exec(s, ctx.offset) {
        Some(t) => t,
        None => {
            return None;
        },
    };
    if !contains_expected(ctx.expected, Expected::CloseParen) || !starts_argument_exec(t) {
        return None;
    }
    proof {
        lemma_prev_non_ws(s@, ctx.offset as int);
    }
    match prev_non_ws_exec(s, ctx.offset) {
        Some((j, c)) => if c == 0x2c || !ends_argument_exec(c) {
            None
        } else if !has_newline_exec(s, j + 1, ctx.offset) {
            None
        } else {
            Some(make("insert-missing-comma-between-args", "did you mean to add a comma between arguments?", ",", Span::new(j + 1, j + 1), 96))
        },
        None => None,
    }
}

pub open spec fn opt_view(o: Option<Suggestion>) -> Option<SuggestionV> {
    match o {
        Some(x) => Some(x@),
        None => None,
    }
}

fn pick(best: Option<Suggestion>, x: Option<Suggestion>) -> (r: Option<Suggestion>)
    ensures
        opt_view(r) == pick_spec(opt_view(best), opt_view(x)),
{
    match x {
        Some(x) => match best {
            Some(b) => if x.priority >= b.priority {
                Some(x)
            } else {
                Some(b)
            },
            None => Some(x),
        },
        None => best,
    }
}

/// The suggestion of the rule with the highest priority among those that apply.
pub fn derive_best_suggestion(ctx: &HintContext) -> (r: Option<Suggestion>)
    ensures
        opt_view(r) == best_suggestion(ctx.input.spec_bytes(), ctx.offset as int, ctx.end_offset as int, ctx.expected@, ctx.labels@),
{
    let ghost rs = rule_results(ctx.input.spec_bytes(), ctx.offset as int, ctx.end_offset as int, ctx.expected@, ctx.labels@);
    proof {
        let r4 = rs.drop_last();
        let r3 = r4.drop_last();
        let r2 = r3.drop_last();
        let r1 = r2.drop_last();
        let r0 = r1.drop_last();
        assert(r0 =~= Seq::<Option<SuggestionV>>::empty());
        assert(best_of(r0) is None);
        assert(r1.last() == rs[0]);
        assert(r2.last() == rs[1]);
        assert(r3.last() == rs[2]);
        assert(r4.last() == rs[3]);
        assert(best_of(r1) == pick_spec(None, rs[0]));
        assert(best_of(r2) == pick_spec(best_of(r1), rs[1]));
        assert(best_of(r3) == pick_spec(best_of(r2), rs[2]));
        assert(best_of(r4) == pick_spec(best_of(r3), rs[3]));
        assert(best_of(rs) == pick_spec(best_of(r4), rs[4]));
    }
    let best = pick(None, single_pipe(ctx));
    let best = pick(best, trailing_comma(ctx));
    let best = pick(best, missing_comma(ctx));
    let best = pick(best, lone_bang(ctx));
    pick(best, missing_close_paren(ctx))
}

/// Whether `sp` lies within `s` and starts and ends at character starts.
pub open spec fn span_within(s: Seq<u8>, sp: Span) -> bool {
    sp.start <= sp.end <= s.len() && char_start(s, sp.start as int) && char_start(s, sp.end as int)
}

/// Every rule that fires proposes a replacement for a span of whole characters of the input.
pub proof fn lemma_rule_spans(s: Seq<u8>, o: int, eo: int, expected: Seq<Expected>, labels: Seq<Label>)
    requires
        vstd::utf8::valid_utf8(s),
        s.len() <= usize::MAX,
        0 <= o <= eo <= s.len(),
        char_start(s, o),
        char_start(s, eo),
    ensures
        forall|k: int| 0 <= k < 5 ==> ((#[trigger] rule_results(s, o, eo, expected, labels)[k]) matches Some(x)
            ==> x.span is Some && x.replacement is Some && span_within(s, x.span->0)),
{
    lemma_prev_non_ws(s, o);
    if let Some((j, c)) = prev_non_ws(s, o) {
        if c < 0x80 {
            if j > 0 {
                lemma_code_at_ascii(s, j);
            } else {
                vstd::utf8::is_char_boundary_iff_not_is_continuation_byte(s, 0);
                vstd::utf8::is_char_boundary_start_end_of_seq(s);
                lemma_code_at_ascii(s, j);
            }
            lemma_after_ascii_char_start(s, j + 1);
            if j == 0 {
                vstd::utf8::is_char_boundary_start_end_of_seq(s);
                vstd::utf8::is_char_boundary_iff_not_is_continuation_byte(s, 0);
            }
        }
    }
    let rs = rule_results(s, o, eo, expected, labels);
    assert(forall|k: int| 0 <= k < 5 ==> (#[trigger] rs[k]) == rule_results(s, o, eo, expected, labels)[k]);
}

/// The best suggestion is the result of one of the rules.
pub proof fn lemma_best_is_rule(s: Seq<u8>, o: int, eo: int, expected: Seq<Expected>, labels: Seq<Label>)
    ensures
        best_suggestion(s, o, eo, expected, labels) matches Some(b) ==> exists|k: int|
            0 <= k < 5 && #[trigger] rule_results(s, o, eo, expected, labels)[k] == Some(b),
{
    lemma_best_of(rule_results(s, o, eo, expected, labels));
}

/// Two arguments on separate lines with nothing but whitespace between them, where `)` was
/// expected: when the first ends with a letter, a digit, `_`, a closing `"` or a closing `)` (a
/// call or a bracketed expression), and the second starts with a letter, a digit, `_`, `"`,
/// `(`, `!` or `-`, the rule proposes inserting a comma just after the first.
pub proof fn lemma_comma_between_arguments(s: Seq<u8>, o: int, expected: Seq<Expected>)
    requires
        expected.contains(Expected::CloseParen),
        0 <= o < s.len(),
        char_start(s, o),
        (0x30u8 <= s[o] <= 0x39u8) || (0x41u8 <= s[o] <= 0x5au8) || (0x61u8 <= s[o] <= 0x7au8)
            || s[o] == 0x5fu8 || s[o] == 0x22u8 || s[o] == 0x28u8 || s[o] == 0x21u8 || s[o]
            == 0x2du8,
        prev_non_ws(s, o) matches Some((j, c)) && ((0x30 <= c <= 0x39) || (0x41 <= c <= 0x5a) || (
        0x61 <= c <= 0x7a) || c == 0x5f || c == 0x22 || c == 0x29) && exists|k: int|
            j < k < o && #[trigger] s[k] == 0x0au8,
    ensures
        missing_comma_rule(s, o, expected) matches Some(x) && x.replacement == Some(","@)
            && x.span == Some(Span { start: ((prev_non_ws(s, o)->0).0 + 1) as usize, end: ((prev_non_ws(s, o)->0).0 + 1) as usize })
            && x.priority == 96,
{
    lemma_prev_non_ws(s, o);
    let (j, c) = prev_non_ws(s, o)->0;
    let k = choose|k: int| j < k < o && #[trigger] s[k] == 0x0au8;
    assert(has_newline(s, j + 1, o));
}

} // verus!
