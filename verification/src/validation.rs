use crate::diagnostics::{
    best_suggestion, derive_best_suggestion, lemma_best_is_rule, lemma_rule_spans, opt_view,
    rule_results, span_within, HintContext, Suggestion, SuggestionV,
};
use crate::parse::error::{expected_text, label_text, Context, Expected, Label, ParseError, ParseErrorV};
use crate::parse::expression::{formula_spec, parse_formula};
use crate::parse::text::char_start;
use crate::report::{
    char_end, contains_text, lemma_char_end, offset_to_position, printable_ascii, position_of, render_report, rendered_report,
    patches_view, span_in, strings_view, unexpected_message, unexpected_token_message,
};
use crate::text_scan::utf8_width_exec;
use crate::token::{ExprV, Span};
use vstd::prelude::*;
use vstd::string::{StringExecFns, StringSliceAdditionalSpecFns};

verus! {

broadcast use vstd::utf8::encode_utf8_valid_utf8;

/// A suggested fix attached to a validation error.
#[derive(Debug, Clone, PartialEq)]
pub struct ValidationSuggestion {
    pub id: &'static str,
    pub message: String,
    pub replacement: Option<String>,
    pub span: Option<Span>,
}

/// Why a formula is not valid, where, and how to fix it.
#[derive(Debug, Clone, PartialEq)]
pub struct ValidationError {
    pub message: String,
    pub details: Vec<String>,
    pub suggestion_ids: Vec<&'static str>,
    pub suggestions: Vec<ValidationSuggestion>,
    pub rendered: String,
    pub offset: usize,
    pub end_offset: usize,
    pub line: usize,
    pub column: usize,
    pub end_line: usize,
    pub end_column: usize,
}

impl ValidationError {
    /// The error as it is shown to a user: its rendered report.
    pub fn describe(&self) -> (r: String)
        ensures
            r@ == self.rendered@,
    {
        self.rendered.clone()
    }
}

/// The labels of an error's context, innermost first, each once.
pub open spec fn context_labels(ctx: Seq<Context>) -> Seq<Label>
    decreases ctx.len(),
{
    if ctx.len() == 0 {
        Seq::empty()
    } else {
        let d = context_labels(ctx.drop_last());
        match ctx.last() {
            Context::Label(l) => if d.contains(l) {
                d
            } else {
                d.push(l)
            },
            _ => d,
        }
    }
}

/// The expected tokens of an error's context, innermost first, each once.
pub open spec fn context_expected(ctx: Seq<Context>) -> Seq<Expected>
    decreases ctx.len(),
{
    if ctx.len() == 0 {
        Seq::empty()
    } else {
        let d = context_expected(ctx.drop_last());
        match ctx.last() {
            Context::Expected(x) => if d.contains(x) {
                d
            } else {
                d.push(x)
            },
            _ => d,
        }
    }
}

/// Labels whose name starts with `expr.` are internal and never shown.
pub open spec fn is_internal_label(l: Label) -> bool {
    l == Label::ParenthesizedClose
}

/// The first label that may be shown.
pub open spec fn first_shown_label(labels: Seq<Label>) -> Option<Label>
    decreases labels.len(),
{
    if labels.len() == 0 {
        None
    } else if !is_internal_label(labels[0]) {
        Some(labels[0])
    } else {
        first_shown_label(labels.drop_first())
    }
}

/// The expected tokens, as written in messages, separated by `, `.
pub open spec fn join_expected(xs: Seq<Expected>) -> Seq<char>
    decreases xs.len(),
{
    if xs.len() == 0 {
        Seq::empty()
    } else if xs.len() == 1 {
        expected_text(xs[0])
    } else {
        join_expected(xs.drop_last()) + ", "@ + expected_text(xs.last())
    }
}

/// The explanations given when no rule suggests a fix: the construct that was invalid, then
/// what was expected.
pub open spec fn plain_details(ctx: Seq<Context>) -> Seq<Seq<char>> {
    let a = match first_shown_label(context_labels(ctx)) {
        Some(l) => seq!["invalid "@ + label_text(l)],
        None => Seq::empty(),
    };
    let xs = context_expected(ctx);
    if xs.len() > 0 {
        a.push("expected one of: "@ + join_expected(xs))
    } else {
        a
    }
}

/// The best suggestion for an error.
pub open spec fn error_suggestion(s: Seq<u8>, e: ParseErrorV) -> Option<SuggestionV> {
    best_suggestion(s, e.pos, char_end(s, e.pos), context_expected(e.ctx), context_labels(e.ctx))
}

pub open spec fn error_details(s: Seq<u8>, e: ParseErrorV) -> Seq<Seq<char>> {
    match error_suggestion(s, e) {
        Some(x) => seq![x.message],
        None => plain_details(e.ctx),
    }
}

pub open spec fn error_notes(s: Seq<u8>, e: ParseErrorV) -> Seq<Seq<char>> {
    seq![unexpected_message(s, e.pos)] + match error_suggestion(s, e) {
        Some(x) => Seq::empty(),
        None => plain_details(e.ctx),
    }
}

pub open spec fn error_patches(s: Seq<u8>, e: ParseErrorV) -> Seq<(Span, Seq<char>)> {
    match error_suggestion(s, e) {
        Some(x) => seq![(x.span->0, x.replacement->0)],
        None => Seq::empty(),
    }
}

pub open spec fn error_helps(s: Seq<u8>, e: ParseErrorV) -> Seq<Seq<char>> {
    match error_suggestion(s, e) {
        Some(x) => seq![x.message],
        None => Seq::empty(),
    }
}

/// What a validation error reports of the parse error `e` in `input`, shown as `source_name`.
pub open spec fn validation_error_matches(
    v: ValidationError,
    input: &str,
    source_name: &str,
    e: ParseErrorV,
) -> bool {
    let s = input.spec_bytes();
    let end = char_end(s, e.pos);
    let sug = error_suggestion(s, e);
    &&& v.offset == e.pos
    &&& v.end_offset == end
    &&& v.line == position_of(s, e.pos).0 && v.column == position_of(s, e.pos).1
    &&& v.end_line == position_of(s, end).0 && v.end_column == position_of(s, end).1
    &&& v.message@ == unexpected_message(s, e.pos)
    &&& strings_view(v.details@) == error_details(s, e)
    &&& match sug {
        Some(x) => v.suggestion_ids@.len() == 1 && v.suggestion_ids@[0]@ == x.id
            && v.suggestions@.len() == 1 && v.suggestions@[0].id@ == x.id
            && v.suggestions@[0].message@ == x.message && v.suggestions@[0].span == x.span
            && (v.suggestions@[0].replacement matches Some(r) && Some(r@) == x.replacement),
        None => v.suggestion_ids@.len() == 0 && v.suggestions@.len() == 0,
    }
    &&& contains_text(v.rendered@, "invalid formula expression"@)
    &&& v.rendered@ == rendered_report(
        "invalid formula expression"@,
        input@,
        source_name@,
        Span { start: e.pos as usize, end: end as usize },
        "error occurred here"@,
        error_notes(s, e),
        error_patches(s, e),
        error_helps(s, e),
    )
}

fn collect_labels(ctx: &Vec<Context>) -> (r: Vec<Label>)
    ensures
        r@ == context_labels(ctx@),
{
    let mut out: Vec<Label> = Vec::new();
    let mut i: usize = 0;
    while i < ctx.len()
        invariant
            i <= ctx.len(),
            out@ == context_labels(ctx@.take(i as int)),
        decreases ctx.len() - i,
    {
        proof {
            assert(ctx@.take(i + 1).drop_last() =~= ctx@.take(i as int));
        }
        match ctx[i] {
            Context::Label(l) => {
                let mut seen = false;
                let mut k: usize = 0;
                while k < out.len()
                    invariant
                        k <= out.len(),
                        seen == (exists|m: int| 0 <= m < k && out@[m] == l),
                    decreases out.len() - k,
                {
                    if out[k] == l {
                        seen = true;
                    }
                    k = k + 1;
                }
                proof {
                    if seen {
                        let m = choose|m: int| 0 <= m < k && out@[m] == l;
                        assert(out@.contains(l));
                    } else {
                        assert(!out@.contains(l));
                    }
                }
                if !seen {
                    out.push(l);
                }
            },
            _ => {},
        }
        i = i + 1;
    }
    proof {
        assert(ctx@.take(ctx.len() as int) =~= ctx@);
    }
    out
}

fn collect_expected(ctx: &Vec<Context>) -> (r: Vec<Expected>)
    ensures
        r@ == context_expected(ctx@),
{
    let mut out: Vec<Expected> = Vec::new();
    let mut i: usize = 0;
    while i < ctx.len()
        invariant
            i <= ctx.len(),
            out@ == context_expected(ctx@.take(i as int)),
        decreases ctx.len() - i,
    {
        proof {
            assert(ctx@.take(i + 1).drop_last() =~= ctx@.take(i as int));
        }
        match ctx[i] {
            Context::Expected(x) => {
                let mut seen = false;
                let mut k: usize = 0;
                while k < out.len()
                    invariant
                        k <= out.len(),
                        seen == (exists|m: int| 0 <= m < k && out@[m] == x),
                    decreases out.len() - k,
                {
                    if out[k] == x {
                        seen = true;
                    }
                    k = k + 1;
                }
                proof {
                    if seen {
                        let m = choose|m: int| 0 <= m < k && out@[m] == x;
                        assert(out@.contains(x));
                    } else {
                        assert(!out@.contains(x));
                    }
                }
                if !seen {
                    out.push(x);
                }
            },
            _ => {},
        }
        i = i + 1;
    }
    proof {
        assert(ctx@.take(ctx.len() as int) =~= ctx@);
    }
    out
}

fn first_shown(labels: &Vec<Label>) -> (r: Option<Label>)
    ensures
        r == first_shown_label(labels@),
{
    let mut i: usize = 0;
    proof {
        assert(labels@.skip(0) =~= labels@);
    }
    while i < labels.len()
        invariant
            i <= labels.len(),
            first_shown_label(labels@) == first_shown_label(labels@.skip(i as int)),
        decreases labels.len() - i,
    {
        proof {
            assert(labels@.skip(i as int).drop_first() =~= labels@.skip(i + 1));
            assert(labels@.skip(i as int)[0] == labels@[i as int]);
        }
        if labels[i] != Label::ParenthesizedClose {
            return Some(labels[i]);
        }
        i = i + 1;
    }
    None
}

fn join_expected_exec(xs: &Vec<Expected>) -> (r: String)
    ensures
        r@ == join_expected(xs@),
{
    let mut out = String::new();
    let mut i: usize = 0;
    while i < xs.len()
        invariant
            i <= xs.len(),
            out@ == join_expected(xs@.take(i as int)),
        decreases xs.len() - i,
    {
        proof {
            assert(xs@.take(i + 1).drop_last() =~= xs@.take(i as int));
            assert(xs@.take(i + 1).last() == xs@[i as int]);
        }
        if i > 0 {
            out.append(", ");
        }
        out.append(xs[i].as_str());
        proof {
            if i == 0 {
                assert(xs@.take(1)[0] == xs@[0]);
                assert(out@ =~= expected_text(xs@[0]));
            }
        }
        i = i + 1;
    }
    proof {
        assert(xs@.take(xs.len() as int) =~= xs@);
    }
    out
}

/// Builds the validation error for the parse error `err` in `input`, shown as `source_name`.
pub fn render_parse_error(input: &str, source_name: &str, err: &ParseError) -> (v: ValidationError)
    requires
        err.offset <= input.spec_bytes().len(),
        char_start(input.spec_bytes(), err.offset as int),
    ensures
        validation_error_matches(v, input, source_name, err@),
{
    let s = input.as_bytes();
    let ghost sv = s@;
    let offset = err.offset;
    proof {
        lemma_char_end(sv, offset as int);
    }
    let end_offset = if offset < s.len() && !(0x80u8 <= s[offset] && s[offset] <= 0xbfu8) {
        offset + utf8_width_exec(s[offset])
    } else {
        offset
    };
    let (line, column) = offset_to_position(input, offset);
    let (end_line, end_column) = offset_to_position(input, end_offset);
    let labels = collect_labels(&err.contexts);
    let expected = collect_expected(&err.contexts);
    let message = unexpected_token_message(input, offset);
    let ctx = HintContext {
        input,
        offset,
        end_offset,
        expected: expected.as_slice(),
        labels: labels.as_slice(),
    };
    let suggestion = derive_best_suggestion(&ctx);
    proof {
        lemma_rule_spans(sv, offset as int, end_offset as int, expected@, labels@);
        lemma_best_is_rule(sv, offset as int, end_offset as int, expected@, labels@);
    }
    let mut details: Vec<String> = Vec::new();
    let mut suggestion_ids: Vec<&'static str> = Vec::new();
    let mut suggestions: Vec<ValidationSuggestion> = Vec::new();
    let mut notes: Vec<String> = Vec::new();
    let mut patches: Vec<(Span, String)> = Vec::new();
    let mut helps: Vec<String> = Vec::new();
    notes.push(message.clone());
    match suggestion {
        Some(sg) => {
            let ghost sgv = sg@;
            let sp = match sg.span {
                Some(sp) => sp,
                None => {
                    proof {
                        assert(false);
                    }
                    Span::new(offset, end_offset)
                },
            };
            let rep = match &sg.replacement {
                Some(r) => r.clone(),
                None => {
                    proof {
                        assert(false);
                    }
                    String::new()
                },
            };
            suggestion_ids.push(sg.id);
            suggestions.push(
                ValidationSuggestion {
                    id: sg.id,
                    message: sg.message.clone(),
                    replacement: Some(rep.clone()),
                    span: sg.span,
                },
            );
            patches.push((sp, rep));
            details.push(sg.message.clone());
            helps.push(sg.message);
            proof {
                assert(strings_view(details@) =~= seq![sgv.message]);
                assert(strings_view(helps@) =~= seq![sgv.message]);
                assert(strings_view(notes@) =~= seq![unexpected_message(sv, offset as int)]);
                assert(patches_view(patches@) =~= seq![(sgv.span->0, sgv.replacement->0)]);
            }
        },
        None => {
            let ghost first_notes = notes@;
            match first_shown(&labels) {
                Some(l) => {
                    let mut d = String::from_str("invalid ");
                    d.append(l.as_str());
                    details.push(d.clone());
                    notes.push(d);
                },
                None => {},
            }
            let ghost mid_details = strings_view(details@);
            let ghost mid_notes = strings_view(notes@);
            if expected.len() > 0 {
                let mut d = String::from_str("expected one of: ");
                let j = join_expected_exec(&expected);
                d.append(j.as_str());
                details.push(d.clone());
                notes.push(d);
                proof {
                    assert(strings_view(details@) =~= mid_details.push("expected one of: "@ + join_expected(expected@)));
                    assert(strings_view(notes@) =~= mid_notes.push("expected one of: "@ + join_expected(expected@)));
                }
            }
            proof {
                let pd = plain_details(err.contexts@);
                assert(strings_view(details@) =~= pd);
                assert(strings_view(notes@) =~= seq![unexpected_message(sv, offset as int)] + pd);
                assert(strings_view(helps@) =~= Seq::<Seq<char>>::empty());
                assert(patches_view(patches@) =~= Seq::<(Span, Seq<char>)>::empty());
            }
        },
    }
    proof {
        reveal_strlit("invalid formula expression");
        assert(printable_ascii("invalid formula expression"@));
    }
    let rendered = render_report(
        "invalid formula expression",
        input,
        source_name,
        Span::new(offset, end_offset),
        "error occurred here",
        &notes,
        &patches,
        &helps,
    );
    ValidationError {
        message,
        details,
        suggestion_ids,
        suggestions,
        rendered,
        offset,
        end_offset,
        line,
        column,
        end_line,
        end_column,
    }
}

/// Checks that `input` is a formula, reporting an error against the name `source_name`.
pub fn validate_expression_detailed_with_source(input: &str, source_name: &str) -> (r: Result<
    (),
    ValidationError,
>)
    ensures
        r is Ok <==> formula_spec(input.spec_bytes()) is Ok,
        r matches Err(v) ==> formula_spec(input.spec_bytes()) matches Err(e)
            && validation_error_matches(v, input, source_name, e),
{
    match parse_formula(input) {
        Ok(_) => Ok(()),
        Err(err) => Err(render_parse_error(input, source_name, &err)),
    }
}

/// Checks that `input` is a formula; errors are reported against the name `expression`.
pub fn validate_expression_detailed(input: &str) -> (r: Result<(), ValidationError>)
    ensures
        r is Ok <==> formula_spec(input.spec_bytes()) is Ok,
        r matches Err(v) ==> formula_spec(input.spec_bytes()) matches Err(e)
            && validation_error_matches(v, input, "expression", e),
{
    validate_expression_detailed_with_source(input, "expression")
}

/// Checks that `input` is a formula; an error is reported as its rendered text.
pub fn validate_expression(input: &str) -> (r: Result<(), String>)
    ensures
        r is Ok <==> formula_spec(input.spec_bytes()) is Ok,
        r matches Err(t) ==> formula_spec(input.spec_bytes()) matches Err(e) && exists|v: ValidationError|
            validation_error_matches(v, input, "expression", e) && t@ == v.rendered@,
        r matches Err(t) ==> contains_text(t@, "invalid formula expression"@) && t@.len() > 0,
{
    proof {
        reveal_strlit("invalid formula expression");
    }
    match validate_expression_detailed(input) {
        Ok(()) => Ok(()),
        Err(v) => Err(v.rendered),
    }
}

} // verus!
