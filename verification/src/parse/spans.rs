use crate::parse::error::StepV;
use crate::parse::expression::{
    args_close_spec, args_loop_spec, args_spec, expr_spec, formula_spec, function_spec, infix_spec,
    lemma_infix, loop_spec, paren_spec, prec_spec, primary_spec, unary_spec,
};
use crate::parse::field_reference::{field_ref_spec, lemma_field_ref};
use crate::parse::function::function_name_spec;
use crate::parse::literal_value::{lemma_alpha_end, lemma_literal_token, literal_spec, literal_token};
use crate::parse::utils::{lemma_trivia_end, trivia_end};
use crate::token::{ev_span, ExprV, Span};
use vstd::prelude::*;

verus! {

/// Whether the span `sp` runs forward and lies between the offsets `lo` and `hi`.
pub open spec fn within(sp: Span, lo: int, hi: int) -> bool {
    lo <= sp.start && sp.start <= sp.end && sp.end <= hi
}

/// Whether every part of `e` covers a stretch that lies within the stretch of the whole: the
/// operands of an operator within the operator's span, the arguments of a call within its
/// argument span, and that within the call's span.
pub open spec fn nested(e: ExprV) -> bool
    decreases e,
{
    match e {
        ExprV::Function { args, args_span, span, .. } => {
            &&& within(args_span, span.start as int, span.end as int)
            &&& forall|i: int|
                0 <= i < args.len() ==> within(
                    ev_span(#[trigger] args[i]),
                    args_span.start as int,
                    args_span.end as int,
                ) && nested(args[i])
        },
        ExprV::FieldRef { span, .. } => span.start <= span.end,
        ExprV::Literal { span, .. } => span.start <= span.end,
        ExprV::Binary { lhs, rhs, span, .. } => {
            &&& within(ev_span(*lhs), span.start as int, span.end as int)
            &&& within(ev_span(*rhs), span.start as int, span.end as int)
            &&& nested(*lhs)
            &&& nested(*rhs)
        },
        ExprV::Unary { operand, span, .. } => {
            &&& within(ev_span(*operand), span.start as int, span.end as int)
            &&& nested(*operand)
        },
    }
}

/// An expression read from `p` up to `q` lies within that stretch, with its parts nested.
pub open spec fn spans_ok(r: StepV<ExprV>, s: Seq<u8>, p: int) -> bool {
    r matches StepV::Done(e, q) ==> within(ev_span(e), p, q) && q <= s.len() && nested(e)
}

/// Every expression read from offset `p` of `s` covers a stretch that starts at or after `p`
/// and ends at or before where reading stopped, and its parts lie within it.
pub proof fn lemma_expr_spans(s: Seq<u8>, p: int)
    requires
        s.len() <= usize::MAX,
    ensures
        spans_ok(expr_spec(s, p), s, p),
    decreases s.len() - p, 9int,
{
    if 0 <= p <= s.len() {
        lemma_prec_spans(s, p, 0);
    }
}

proof fn lemma_prec_spans(s: Seq<u8>, p: int, min: int)
    requires
        s.len() <= usize::MAX,
    ensures
        spans_ok(prec_spec(s, p, min), s, p),
    decreases s.len() - p, 8int,
{
    if 0 <= p <= s.len() {
        lemma_unary_spans(s, p);
        if let StepV::Done(lhs, q) = unary_spec(s, p) {
            if p < q <= s.len() {
                lemma_loop_spans(s, lhs, q, min, p);
            }
        }
    }
}

proof fn lemma_loop_spans(s: Seq<u8>, lhs: ExprV, q: int, min: int, lo: int)
    requires
        s.len() <= usize::MAX,
        within(ev_span(lhs), lo, q),
        q <= s.len(),
        nested(lhs),
    ensures
        spans_ok(loop_spec(s, lhs, q, min), s, lo),
    decreases s.len() - q, 10int,
{
    if 0 <= q < s.len() {
        if let Some((op, prec, r)) = infix_spec(s, q) {
            if prec >= min {
                lemma_infix(s, q);
                lemma_prec_spans(s, r, prec + 1);
                if let StepV::Done(rhs, q2) = prec_spec(s, r, prec + 1) {
                    if q < q2 <= s.len() {
                        let b = ExprV::Binary {
                            lhs: Box::new(lhs),
                            op,
                            rhs: Box::new(rhs),
                            span: crate::token::span(
                                ev_span(lhs).start as int,
                                ev_span(rhs).end as int,
                            ),
                        };
                        assert(nested(b));
                        lemma_loop_spans(s, b, q2, min, lo);
                    }
                }
            }
        }
    }
}

proof fn lemma_unary_spans(s: Seq<u8>, p: int)
    requires
        s.len() <= usize::MAX,
    ensures
        spans_ok(unary_spec(s, p), s, p),
    decreases s.len() - p, 7int,
{
    if 0 <= p <= s.len() {
        lemma_trivia_end(s, p);
        let t = trivia_end(s, p);
        if t < s.len() && (s[t] == 0x21u8 || s[t] == 0x2du8) {
            lemma_unary_spans(s, t + 1);
            if let StepV::Done(e, q) = unary_spec(s, t + 1) {
                lemma_trivia_end(s, q);
            }
        }
        lemma_primary_spans(s, p);
    }
}

proof fn lemma_primary_spans(s: Seq<u8>, p: int)
    requires
        s.len() <= usize::MAX,
    ensures
        spans_ok(primary_spec(s, p), s, p),
    decreases s.len() - p, 6int,
{
    lemma_function_spans(s, p);
    if 0 <= p <= s.len() {
        lemma_trivia_end(s, p);
        let t = trivia_end(s, p);
        lemma_literal_token(s, t);
        if let Some((v, e)) = literal_token(s, t) {
            lemma_trivia_end(s, e);
        }
        lemma_field_ref(s, p);
    }
    lemma_paren_spans(s, p);
}

proof fn lemma_function_spans(s: Seq<u8>, p: int)
    requires
        s.len() <= usize::MAX,
    ensures
        spans_ok(function_spec(s, p), s, p),
    decreases s.len() - p, 5int,
{
    if 0 <= p <= s.len() {
        if let Some((f, t, a, u)) = function_name_spec(s, p) {
            if u < s.len() && s[u] == 0x28u8 {
                lemma_trivia_end(s, p);
                lemma_alpha_end(s, t);
                lemma_trivia_end(s, a);
                lemma_args_spans(s, u);
            }
        }
    }
}

/// What an argument list read from its opening parenthesis at `u` satisfies: its span starts
/// after `u` and ends before the closing parenthesis, every argument lies within it, and
/// reading stops after the closing parenthesis.
pub open spec fn args_ok(r: StepV<(Seq<ExprV>, Span, int)>, s: Seq<u8>, lo: int) -> bool {
    r matches StepV::Done((args, sp, close), w) ==> {
        &&& within(sp, lo, close)
        &&& close < w <= s.len()
        &&& forall|i: int|
            0 <= i < args.len() ==> within(ev_span(#[trigger] args[i]), sp.start as int, sp.end as int)
                && nested(args[i])
    }
}

proof fn lemma_args_spans(s: Seq<u8>, u: int)
    requires
        s.len() <= usize::MAX,
    ensures
        args_ok(args_spec(s, u), s, u + 1),
    decreases s.len() - u, 4int,
{
    if 0 <= u < s.len() {
        lemma_trivia_end(s, u + 1);
        let v = trivia_end(s, u + 1);
        if v < s.len() && s[v] == 0x29u8 {
            lemma_trivia_end(s, v + 1);
        } else {
            lemma_expr_spans(s, v);
            if let StepV::Done(e1, p1) = expr_spec(s, v) {
                if v < p1 <= s.len() {
                    lemma_args_loop_spans(s, seq![e1], p1, v);
                }
            }
        }
    }
}

proof fn lemma_args_loop_spans(s: Seq<u8>, acc: Seq<ExprV>, p: int, v: int)
    requires
        s.len() <= usize::MAX,
        0 <= v <= p <= s.len(),
        forall|i: int|
            0 <= i < acc.len() ==> within(ev_span(#[trigger] acc[i]), v, p) && nested(acc[i]),
    ensures
        args_ok(args_loop_spec(s, acc, p, v), s, v),
    decreases s.len() - p, 3int,
{
    lemma_trivia_end(s, p);
    let t = trivia_end(s, p);
    lemma_args_close_spans(s, acc, p, v);
    if t < s.len() && s[t] == 0x2cu8 {
        lemma_trivia_end(s, t + 1);
        let c = trivia_end(s, t + 1);
        lemma_expr_spans(s, c);
        if let StepV::Done(e2, p2) = expr_spec(s, c) {
            if p < p2 <= s.len() {
                let acc2 = acc.push(e2);
                assert forall|i: int| 0 <= i < acc2.len() implies within(
                    ev_span(#[trigger] acc2[i]),
                    v,
                    p2,
                ) && nested(acc2[i]) by {
                    if i < acc.len() {
                        assert(acc2[i] == acc[i]);
                    }
                }
                lemma_args_loop_spans(s, acc2, p2, v);
            }
        }
    }
}

proof fn lemma_args_close_spans(s: Seq<u8>, acc: Seq<ExprV>, p: int, v: int)
    requires
        s.len() <= usize::MAX,
        0 <= v <= p <= s.len(),
        forall|i: int|
            0 <= i < acc.len() ==> within(ev_span(#[trigger] acc[i]), v, p) && nested(acc[i]),
    ensures
        args_ok(args_close_spec(s, acc, p, v), s, v),
{
    lemma_trivia_end(s, p);
    let t = trivia_end(s, p);
    if 0 <= t < s.len() && s[t] == 0x29u8 {
        lemma_trivia_end(s, t + 1);
    }
}

proof fn lemma_paren_spans(s: Seq<u8>, p: int)
    requires
        s.len() <= usize::MAX,
    ensures
        spans_ok(paren_spec(s, p), s, p),
    decreases s.len() - p, 5int,
{
    if 0 <= p <= s.len() {
        lemma_trivia_end(s, p);
        let t = trivia_end(s, p);
        if t < s.len() && s[t] == 0x28u8 {
            lemma_trivia_end(s, t + 1);
            let i = trivia_end(s, t + 1);
            lemma_expr_spans(s, i);
            if let StepV::Done(e, q) = expr_spec(s, i) {
                lemma_trivia_end(s, q);
                let c = trivia_end(s, q);
                if 0 <= c < s.len() && s[c] == 0x29u8 {
                    lemma_trivia_end(s, c + 1);
                }
            }
        }
    }
}

/// A formula's tree covers a stretch of the input, with every part nested in its parent.
pub proof fn lemma_formula_spans(s: Seq<u8>)
    requires
        s.len() <= usize::MAX,
    ensures
        formula_spec(s) matches Ok(e) ==> within(ev_span(e), 0, s.len() as int) && nested(e),
{
    lemma_expr_spans(s, 0);
}

} // verus!
