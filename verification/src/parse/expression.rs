use crate::function_names::FunctionName;
use crate::parse::error::{Context, Expected, Label, ParseError, ParseErrorV, Step, StepV};
use crate::parse::field_reference::{field_ref_exec, field_ref_spec, kept_names, lemma_field_ref};
use crate::parse::function::{function_name_exec, function_name_spec};
use crate::parse::literal_value::{
    alpha_end, lemma_alpha_end, lemma_literal_token, literal_spec, literal_token, literal_token_exec,
};
use crate::parse::text::{after_ascii, char_start, lemma_after_ascii_char_start, lemma_trivia_char_start};
use crate::parse::utils::{lemma_trivia_end, skip_trivia, trivia_end};
use crate::token::{
    ev_span, exprs_view, span, span_of, BinaryExpr, ExprV, Expression, Function, FunctionArgumentList, Operator,
    Span, UnaryExpr,
};
use vstd::prelude::*;
use vstd::string::StringSliceAdditionalSpecFns;

verus! {

broadcast use vstd::utf8::encode_utf8_valid_utf8;

/// The binary operator written at `t`: the operator, its binding power, and its length.
/// Longer operators are preferred where one is a prefix of another.
pub open spec fn op_at(s: Seq<u8>, t: int) -> Option<(Operator, int, int)> {
    let two = |c: u8| t + 1 < s.len() && s[t + 1] == c;
    if !(0 <= t < s.len()) {
        None
    } else if s[t] == 0x5eu8 {
        Some((Operator::Exponentiation, 10, 1))
    } else if s[t] == 0x2au8 {
        Some((Operator::Multiply, 9, 1))
    } else if s[t] == 0x2fu8 {
        Some((Operator::Divide, 9, 1))
    } else if s[t] == 0x2bu8 {
        Some((Operator::Add, 8, 1))
    } else if s[t] == 0x2du8 {
        Some((Operator::Subtract, 8, 1))
    } else if s[t] == 0x3du8 && two(0x3du8) {
        Some((Operator::Equal, 7, 2))
    } else if s[t] == 0x3du8 {
        Some((Operator::Equal, 7, 1))
    } else if s[t] == 0x21u8 && two(0x3du8) {
        Some((Operator::NotEqual, 7, 2))
    } else if s[t] == 0x3cu8 && two(0x3eu8) {
        Some((Operator::NotEqual, 7, 2))
    } else if s[t] == 0x3cu8 && two(0x3du8) {
        Some((Operator::LessThanOrEqual, 7, 2))
    } else if s[t] == 0x3cu8 {
        Some((Operator::LessThan, 7, 1))
    } else if s[t] == 0x3eu8 && two(0x3du8) {
        Some((Operator::GreaterThanOrEqual, 7, 2))
    } else if s[t] == 0x3eu8 {
        Some((Operator::GreaterThan, 7, 1))
    } else if s[t] == 0x26u8 && two(0x26u8) {
        Some((Operator::And, 6, 2))
    } else if s[t] == 0x7cu8 && two(0x7cu8) {
        Some((Operator::Or, 6, 2))
    } else if s[t] == 0x26u8 {
        Some((Operator::Concatenate, 5, 1))
    } else {
        None
    }
}

/// The binding power of the operator read at `t`, or none when no operator is written there.
pub open spec fn power_at(s: Seq<u8>, t: int) -> Option<int> {
    match op_at(s, t) {
        Some((_, prec, _)) => Some(prec),
        None => None,
    }
}

/// The operator read at `t`, if any.
pub open spec fn operator_at(s: Seq<u8>, t: int) -> Option<Operator> {
    match op_at(s, t) {
        Some((op, _, _)) => Some(op),
        None => None,
    }
}

/// How tightly the arithmetic operators bind, relative to each other: `^` tighter than `*`
/// and `/`, which bind alike and tighter than `+` and `-`, which bind alike and tighter than
/// the comparisons; each single-byte operator is read as the operator it spells. Here `s1` holds
/// one operator at `t1` and `s2` another at `t2`.
pub proof fn lemma_arithmetic_binding(s1: Seq<u8>, t1: int, s2: Seq<u8>, t2: int)
    requires
        0 <= t1 < s1.len(),
        0 <= t2 < s2.len(),
    ensures
        s1[t1] == 0x2du8 ==> operator_at(s1, t1) == Some(Operator::Subtract),
        s1[t1] == 0x2bu8 ==> operator_at(s1, t1) == Some(Operator::Add),
        s1[t1] == 0x2au8 ==> operator_at(s1, t1) == Some(Operator::Multiply),
        s1[t1] == 0x2fu8 ==> operator_at(s1, t1) == Some(Operator::Divide),
        s1[t1] == 0x5eu8 ==> operator_at(s1, t1) == Some(Operator::Exponentiation),
        s1[t1] == 0x2du8 && s2[t2] == 0x2bu8 ==> power_at(s1, t1) == power_at(s2, t2),
        s1[t1] == 0x2au8 && s2[t2] == 0x2fu8 ==> power_at(s1, t1) == power_at(s2, t2),
        (s1[t1] == 0x2bu8 || s1[t1] == 0x2du8) && (s2[t2] == 0x2au8 || s2[t2] == 0x2fu8) ==> (
        power_at(s1, t1)->0) < (power_at(s2, t2)->0),
        (s1[t1] == 0x2au8 || s1[t1] == 0x2fu8) && s2[t2] == 0x5eu8 ==> (power_at(s1, t1)->0) < (
        power_at(s2, t2)->0),
        (s1[t1] == 0x3cu8 || s1[t1] == 0x3eu8 || s1[t1] == 0x3du8) && (s2[t2] == 0x2bu8 || s2[t2]
            == 0x2du8) ==> (power_at(s1, t1)->0) < (power_at(s2, t2)->0),
        s1[t1] == 0x26u8 && s2[t2] == 0x3du8 ==> (power_at(s1, t1)->0) < (power_at(s2, t2)->0),
{
}

/// `=` and `==` are both read as equality, and `!=` and `<>` both as inequality, with the same
/// binding power; each spelling is read whole (a `=` followed by another `=` is read as `==`).
pub proof fn lemma_equality_spellings(s: Seq<u8>, t: int)
    requires
        0 <= t < s.len(),
    ensures
        s[t] == 0x3du8 ==> op_at(s, t) == Some(
            (Operator::Equal, 7int, if t + 1 < s.len() && s[t + 1] == 0x3du8 { 2int } else { 1int }),
        ),
        t + 1 < s.len() && s[t] == 0x21u8 && s[t + 1] == 0x3du8 ==> op_at(s, t) == Some(
            (Operator::NotEqual, 7int, 2int),
        ),
        t + 1 < s.len() && s[t] == 0x3cu8 && s[t + 1] == 0x3eu8 ==> op_at(s, t) == Some(
            (Operator::NotEqual, 7int, 2int),
        ),
        op_at(s, t) matches Some((Operator::Equal, _, _)) ==> s[t] == 0x3du8,
        op_at(s, t) matches Some((Operator::NotEqual, _, _)) ==> t + 1 < s.len() && ((s[t]
            == 0x21u8 && s[t + 1] == 0x3du8) || (s[t] == 0x3cu8 && s[t + 1] == 0x3eu8)),
{
}

/// A binary operator with the whitespace and comments around it: the operator, its binding
/// power, and where parsing continues.
pub open spec fn infix_spec(s: Seq<u8>, q: int) -> Option<(Operator, int, int)> {
    let t = trivia_end(s, q);
    match op_at(s, t) {
        Some((op, prec, len)) => Some((op, prec, trivia_end(s, t + len))),
        None => None,
    }
}

pub proof fn lemma_infix(s: Seq<u8>, q: int)
    requires
        0 <= q <= s.len(),
    ensures
        infix_spec(s, q) matches Some((op, prec, r)) ==> q < r <= s.len() && after_ascii(s, r) && 5
            <= prec <= 10,
{
    lemma_trivia_end(s, q);
    let t = trivia_end(s, q);
    if let Some((op, prec, len)) = op_at(s, t) {
        lemma_trivia_end(s, t + len);
    }
}

pub open spec fn with_expression_label(r: StepV<ExprV>) -> StepV<ExprV> {
    match r {
        StepV::Fatal(e) => StepV::Fatal(
            ParseErrorV { pos: e.pos, ctx: e.ctx.push(Context::Label(Label::Expression)) },
        ),
        other => other,
    }
}

/// An expression at `p`: operands joined by binary operators, each error labelled as being
/// inside an expression.
pub open spec fn expr_spec(s: Seq<u8>, p: int) -> StepV<ExprV>
    decreases s.len() - p, 9int,
{
    if !(0 <= p <= s.len()) {
        StepV::Backtrack
    } else {
        with_expression_label(prec_spec(s, p, 0))
    }
}

/// An operand followed by every binary operator of binding power at least `min` (operators of
/// equal power associate to the left). An operand that cannot be read is an error at `p`.
pub open spec fn prec_spec(s: Seq<u8>, p: int, min: int) -> StepV<ExprV>
    decreases s.len() - p, 8int,
{
    if !(0 <= p <= s.len()) {
        StepV::Backtrack
    } else {
        match unary_spec(s, p) {
            StepV::Backtrack => StepV::Fatal(ParseErrorV { pos: p, ctx: Seq::empty() }),
            StepV::Fatal(e) => StepV::Fatal(e),
            StepV::Done(lhs, q) => if p < q <= s.len() {
                loop_spec(s, lhs, q, min)
            } else {
                StepV::Done(lhs, q)
            },
        }
    }
}

/// Folds binary operators of power at least `min` onto `lhs`, reading from `q`.
pub open spec fn loop_spec(s: Seq<u8>, lhs: ExprV, q: int, min: int) -> StepV<ExprV>
    decreases s.len() - q, 10int,
{
    if !(0 <= q < s.len()) {
        StepV::Done(lhs, q)
    } else {
        match infix_spec(s, q) {
            None => StepV::Done(lhs, q),
            Some((op, prec, r)) => if prec < min {
                StepV::Done(lhs, q)
            } else {
                proof {
                    lemma_infix(s, q);
                }
                match prec_spec(s, r, prec + 1) {
                    StepV::Done(rhs, q2) => if q < q2 <= s.len() {
                        let b = ExprV::Binary {
                            lhs: Box::new(lhs),
                            op,
                            rhs: Box::new(rhs),
                            span: span(ev_span(lhs).start as int, ev_span(rhs).end as int),
                        };
                        loop_spec(s, b, q2, min)
                    } else {
                        StepV::Done(lhs, q)
                    },
                    StepV::Fatal(e) => StepV::Fatal(e),
                    StepV::Backtrack => StepV::Backtrack,
                }
            },
        }
    }
}

/// `!` or `-` applied to a unary expression, or a primary expression.
pub open spec fn unary_spec(s: Seq<u8>, p: int) -> StepV<ExprV>
    decreases s.len() - p, 7int,
{
    if !(0 <= p <= s.len()) {
        StepV::Backtrack
    } else {
        let t = trivia_end(s, p);
        proof {
            lemma_trivia_end(s, p);
        }
        let not = if t < s.len() && s[t] == 0x21u8 {
            match unary_spec(s, t + 1) {
                StepV::Done(e, q) => StepV::Done(
                    ExprV::Unary {
                        op: Operator::Not,
                        operand: Box::new(e),
                        span: span(t, ev_span(e).end as int),
                    },
                    trivia_end(s, q),
                ),
                other => other,
            }
        } else {
            StepV::Backtrack
        };
        if !(not is Backtrack) {
            not
        } else {
            let neg = if t < s.len() && s[t] == 0x2du8 {
                match unary_spec(s, t + 1) {
                    StepV::Done(e, q) => StepV::Done(
                        ExprV::Unary {
                            op: Operator::Negative,
                            operand: Box::new(e),
                            span: span(t, ev_span(e).end as int),
                        },
                        trivia_end(s, q),
                    ),
                    other => other,
                }
            } else {
                StepV::Backtrack
            };
            if !(neg is Backtrack) {
                neg
            } else {
                primary_spec(s, p)
            }
        }
    }
}

/// A function call, a literal, a field reference, or a parenthesized expression, tried in
/// that order.
pub open spec fn primary_spec(s: Seq<u8>, p: int) -> StepV<ExprV>
    decreases s.len() - p, 6int,
{
    let f = function_spec(s, p);
    if !(f is Backtrack) {
        f
    } else {
        match literal_spec(s, p) {
            Some((v, sp, q)) => StepV::Done(ExprV::Literal { value: v, span: sp }, q),
            None => match field_ref_spec(s, p) {
                Some((names, sp, q)) => StepV::Done(
                    ExprV::FieldRef { names: kept_names(names), span: sp },
                    q,
                ),
                None => paren_spec(s, p),
            },
        }
    }
}

/// A function name followed by its argument list. The span runs from the name to the closing
/// parenthesis.
pub open spec fn function_spec(s: Seq<u8>, p: int) -> StepV<ExprV>
    decreases s.len() - p, 5int,
{
    if !(0 <= p <= s.len()) {
        StepV::Backtrack
    } else {
        match function_name_spec(s, p) {
            None => StepV::Backtrack,
            Some((f, t, a, u)) => if u < s.len() && s[u] == 0x28u8 {
                proof {
                    lemma_trivia_end(s, p);
                    lemma_alpha_end(s, t);
                    lemma_trivia_end(s, a);
                }
                match args_spec(s, u) {
                    StepV::Done((args, asp, close), w) => StepV::Done(
                        ExprV::Function {
                            fname: f,
                            args,
                            args_span: asp,
                            span: span(t, close + 1),
                        },
                        w,
                    ),
                    StepV::Fatal(e) => StepV::Fatal(e),
                    StepV::Backtrack => StepV::Backtrack,
                }
            } else {
                StepV::Backtrack
            },
        }
    }
}

/// The argument list that opens at `u`: the arguments, the span they occupy, and where the
/// closing parenthesis stands.
pub open spec fn args_spec(s: Seq<u8>, u: int) -> StepV<(Seq<ExprV>, Span, int)>
    decreases s.len() - u, 4int,
{
    if !(0 <= u < s.len()) {
        StepV::Backtrack
    } else {
        let v = trivia_end(s, u + 1);
        proof {
            lemma_trivia_end(s, u + 1);
        }
        if v < s.len() && s[v] == 0x29u8 {
            StepV::Done((Seq::empty(), span(v, v), v), trivia_end(s, v + 1))
        } else {
            match expr_spec(s, v) {
                StepV::Done(e1, p1) => if v < p1 <= s.len() {
                    args_loop_spec(s, seq![e1], p1, v)
                } else {
                    StepV::Backtrack
                },
                StepV::Fatal(e) => StepV::Fatal(e),
                StepV::Backtrack => StepV::Backtrack,
            }
        }
    }
}

/// More arguments, each after a comma, then the closing parenthesis.
pub open spec fn args_loop_spec(s: Seq<u8>, acc: Seq<ExprV>, p: int, v: int) -> StepV<
    (Seq<ExprV>, Span, int),
>
    decreases s.len() - p, 3int,
{
    if !(0 <= p <= s.len()) {
        StepV::Backtrack
    } else {
        let t = trivia_end(s, p);
        proof {
            lemma_trivia_end(s, p);
        }
        if t < s.len() && s[t] == 0x2cu8 {
            let c = trivia_end(s, t + 1);
            proof {
                lemma_trivia_end(s, t + 1);
            }
            match expr_spec(s, c) {
                StepV::Done(e2, p2) => if p < p2 <= s.len() {
                    args_loop_spec(s, acc.push(e2), p2, v)
                } else {
                    args_close_spec(s, acc, p, v)
                },
                StepV::Fatal(e) => StepV::Fatal(e),
                StepV::Backtrack => args_close_spec(s, acc, p, v),
            }
        } else {
            args_close_spec(s, acc, p, v)
        }
    }
}

/// The closing parenthesis of an argument list whose arguments end at `p`.
pub open spec fn args_close_spec(s: Seq<u8>, acc: Seq<ExprV>, p: int, v: int) -> StepV<
    (Seq<ExprV>, Span, int),
> {
    let t = trivia_end(s, p);
    if 0 <= t < s.len() && s[t] == 0x29u8 {
        StepV::Done((acc, span(v, p), t), trivia_end(s, t + 1))
    } else {
        StepV::Fatal(ParseErrorV { pos: t, ctx: seq![Context::Expected(Expected::CloseParen)] })
    }
}

/// An expression in parentheses; its value (and span) is that of the inner expression.
pub open spec fn paren_spec(s: Seq<u8>, p: int) -> StepV<ExprV>
    decreases s.len() - p, 5int,
{
    if !(0 <= p <= s.len()) {
        StepV::Backtrack
    } else {
        let t = trivia_end(s, p);
        proof {
            lemma_trivia_end(s, p);
        }
        if t < s.len() && s[t] == 0x28u8 {
            proof {
                lemma_trivia_end(s, t + 1);
            }
            match expr_spec(s, trivia_end(s, t + 1)) {
                StepV::Done(e, q) => {
                    let c = trivia_end(s, q);
                    if 0 <= c < s.len() && s[c] == 0x29u8 {
                        StepV::Done(e, trivia_end(s, c + 1))
                    } else {
                        StepV::Fatal(
                            ParseErrorV {
                                pos: c,
                                ctx: seq![
                                    Context::Expected(Expected::CloseParen),
                                    Context::Label(Label::ParenthesizedClose),
                                ],
                            },
                        )
                    }
                },
                StepV::Fatal(e) => StepV::Fatal(e),
                StepV::Backtrack => StepV::Backtrack,
            }
        } else {
            StepV::Backtrack
        }
    }
}

/// A whole formula: an expression that takes up all of the input.
pub open spec fn formula_spec(s: Seq<u8>) -> Result<ExprV, ParseErrorV> {
    match expr_spec(s, 0) {
        StepV::Done(e, q) => if q == s.len() {
            Ok(e)
        } else {
            Err(ParseErrorV { pos: q, ctx: Seq::empty() })
        },
        StepV::Fatal(e) => Err(e),
        StepV::Backtrack => Err(ParseErrorV { pos: 0, ctx: Seq::empty() }),
    }
}


// ----- executable parser -----

/// The facts every parser result obeys: a value ends past where parsing began, at a character
/// start; an error points at a character start within the input.
pub open spec fn step_ok<T>(r: Step<T>, s: Seq<u8>, p: int) -> bool {
    match r {
        Step::Done(_, q) => p < q <= s.len() && char_start(s, q as int),
        Step::Fatal(e) => e.offset <= s.len() && char_start(s, e.offset as int),
        Step::Backtrack => true,
    }
}

fn op_at_exec(b: &[u8], t: usize) -> (r: Option<(Operator, u32, usize)>)
    requires
        t <= b.len(),
    ensures
        r matches Some((op, prec, len)) ==> op_at(b@, t as int) == Some(
            (op, prec as int, len as int),
        ),
        r is None ==> op_at(b@, t as int) is None,
{
    if t >= b.len() {
        return None;
    }
    let c = b[t];
    let next_is = |x: u8| -> (r: bool)
        ensures
            r == (t + 1 < b@.len() && b@[t + 1] == x),
        { t + 1 < b.len() && b[t + 1] == x };
    if c == 0x5eu8 {
        Some((Operator::Exponentiation, 10, 1))
    } else if c == 0x2au8 {
        Some((Operator::Multiply, 9, 1))
    } else if c == 0x2fu8 {
        Some((Operator::Divide, 9, 1))
    } else if c == 0x2bu8 {
        Some((Operator::Add, 8, 1))
    } else if c == 0x2du8 {
        Some((Operator::Subtract, 8, 1))
    } else if c == 0x3du8 && next_is(0x3du8) {
        Some((Operator::Equal, 7, 2))
    } else if c == 0x3du8 {
        Some((Operator::Equal, 7, 1))
    } else if c == 0x21u8 && next_is(0x3du8) {
        Some((Operator::NotEqual, 7, 2))
    } else if c == 0x3cu8 && next_is(0x3eu8) {
        Some((Operator::NotEqual, 7, 2))
    } else if c == 0x3cu8 && next_is(0x3du8) {
        Some((Operator::LessThanOrEqual, 7, 2))
    } else if c == 0x3cu8 {
        Some((Operator::LessThan, 7, 1))
    } else if c == 0x3eu8 && next_is(0x3du8) {
        Some((Operator::GreaterThanOrEqual, 7, 2))
    } else if c == 0x3eu8 {
        Some((Operator::GreaterThan, 7, 1))
    } else if c == 0x26u8 && next_is(0x26u8) {
        Some((Operator::And, 6, 2))
    } else if c == 0x7cu8 && next_is(0x7cu8) {
        Some((Operator::Or, 6, 2))
    } else if c == 0x26u8 {
        Some((Operator::Concatenate, 5, 1))
    } else {
        None
    }
}

fn infix_exec(b: &[u8], q: usize) -> (r: Option<(Operator, u32, usize)>)
    requires
        q <= b.len(),
    ensures
        r matches Some((op, prec, next)) ==> infix_spec(b@, q as int) == Some(
            (op, prec as int, next as int),
        ),
        r is None ==> infix_spec(b@, q as int) is None,
{
    let t = skip_trivia(b, q);
    proof {
        lemma_trivia_end(b@, q as int);
    }
    match op_at_exec(b, t) {
        Some((op, prec, len)) => {
            let next = skip_trivia(b, t + len);
            Some((op, prec, next))
        },
        None => None,
    }
}

/// Parses an expression at `p`.
pub(crate) fn expr_exec(src: &str, b: &[u8], p: usize) -> (r: Step<Expression>)
    requires
        b@ == src.spec_bytes(),
        p <= b.len(),
        char_start(b@, p as int),
    ensures
        r@ == expr_spec(b@, p as int),
        step_ok(r, b@, p as int),
        !(r is Backtrack),
    decreases b.len() - p, 9int,
{
    match prec_exec(src, b, p, 0) {
        Step::Fatal(e) => {
            let mut e = e;
            e.contexts.push(Context::Label(Label::Expression));
            Step::Fatal(e)
        },
        other => other,
    }
}

fn prec_exec(src: &str, b: &[u8], p: usize, min: u32) -> (r: Step<Expression>)
    requires
        b@ == src.spec_bytes(),
        p <= b.len(),
        char_start(b@, p as int),
        min <= 11,
    ensures
        r@ == prec_spec(b@, p as int, min as int),
        step_ok(r, b@, p as int),
        !(r is Backtrack),
    decreases b.len() - p, 8int,
{
    let ghost s = b@;
    let (first, q0) = match unary_exec(src, b, p) {
        Step::Backtrack => {
            return Step::Fatal(ParseError { offset: p, contexts: Vec::new() });
        },
        Step::Fatal(e) => {
            return Step::Fatal(e);
        },
        Step::Done(e, q) => (e, q),
    };
    let ghost lhs0 = first@;
    proof {
        assert(prec_spec(s, p as int, min as int) == loop_spec(s, lhs0, q0 as int, min as int));
    }
    let mut lhs = first;
    let mut q = q0;
    let mut go = true;
    while go && q < b.len()
        invariant
            b@ == src.spec_bytes(),
            s == b@,
            p < q <= b.len(),
            p < q0,
            char_start(s, q as int),
            min <= 11,
            prec_spec(s, p as int, min as int) == loop_spec(s, lhs0, q0 as int, min as int),
            loop_spec(s, lhs0, q0 as int, min as int) == loop_spec(s, lhs@, q as int, min as int),
            !go ==> loop_spec(s, lhs@, q as int, min as int) == StepV::Done(lhs@, q as int),
        decreases b.len() - q + (if go { 1int } else { 0int }),
    {
        proof {
            lemma_infix(s, q as int);
        }
        match infix_exec(b, q) {
            None => {
                go = false;
            },
            Some((op, prec, r)) => {
                if prec < min {
                    go = false;
                } else {
                    proof {
                        lemma_after_ascii_char_start(s, r as int);
                    }
                    match prec_exec(src, b, r, prec + 1) {
                        Step::Done(rhs, q2) => {
                            let sp = Span::new(span_of(&lhs).start, span_of(&rhs).end);
                            lhs = Expression::BinaryExpr(Box::new(BinaryExpr(lhs, op, rhs)), sp);
                            q = q2;
                        },
                        Step::Fatal(e) => {
                            return Step::Fatal(e);
                        },
                        Step::Backtrack => {
                            return Step::Backtrack;
                        },
                    }
                }
            },
        }
    }
    Step::Done(lhs, q)
}

fn unary_exec(src: &str, b: &[u8], p: usize) -> (r: Step<Expression>)
    requires
        b@ == src.spec_bytes(),
        p <= b.len(),
        char_start(b@, p as int),
    ensures
        r@ == unary_spec(b@, p as int),
        step_ok(r, b@, p as int),
    decreases b.len() - p, 7int,
{
    let ghost s = b@;
    let t = skip_trivia(b, p);
    proof {
        lemma_trivia_char_start(s, p as int);
    }
    if t < b.len() && b[t] == 0x21u8 {
        proof {
            lemma_after_ascii_char_start(s, t + 1);
        }
        match unary_exec(src, b, t + 1) {
            Step::Done(e, q) => {
                let sp = Span::new(t, span_of(&e).end);
                let q2 = skip_trivia(b, q);
                proof {
                    lemma_trivia_char_start(s, q as int);
                }
                return Step::Done(Expression::UnaryExpr(Box::new(UnaryExpr(Operator::Not, e)), sp), q2);
            },
            Step::Fatal(e) => {
                return Step::Fatal(e);
            },
            Step::Backtrack => {},
        }
    }
    if t < b.len() && b[t] == 0x2du8 {
        proof {
            lemma_after_ascii_char_start(s, t + 1);
        }
        match unary_exec(src, b, t + 1) {
            Step::Done(e, q) => {
                let sp = Span::new(t, span_of(&e).end);
                let q2 = skip_trivia(b, q);
                proof {
                    lemma_trivia_char_start(s, q as int);
                }
                return Step::Done(
                    Expression::UnaryExpr(Box::new(UnaryExpr(Operator::Negative, e)), sp),
                    q2,
                );
            },
            Step::Fatal(e) => {
                return Step::Fatal(e);
            },
            Step::Backtrack => {},
        }
    }
    primary_exec(src, b, p)
}

fn primary_exec(src: &str, b: &[u8], p: usize) -> (r: Step<Expression>)
    requires
        b@ == src.spec_bytes(),
        p <= b.len(),
        char_start(b@, p as int),
    ensures
        r@ == primary_spec(b@, p as int),
        step_ok(r, b@, p as int),
    decreases b.len() - p, 6int,
{
    let ghost s = b@;
    let f = function_exec(src, b, p);
    if !matches!(f, Step::Backtrack) {
        return f;
    }
    let t = skip_trivia(b, p);
    proof {
        lemma_trivia_char_start(s, p as int);
        lemma_literal_token(s, t as int);
    }
    match literal_token_exec(src, b, t) {
        Some((v, e)) => {
            let q = skip_trivia(b, e);
            proof {
                lemma_after_ascii_char_start(s, e as int);
                lemma_trivia_char_start(s, e as int);
            }
            return Step::Done(Expression::Literal(v, Span::new(t, e)), q);
        },
        None => {},
    }
    proof {
        lemma_field_ref(s, p as int);
    }
    match field_ref_exec(src, b, p) {
        Some((fr, sp, q)) => {
            proof {
                lemma_after_ascii_char_start(s, q as int);
            }
            return Step::Done(Expression::FieldRef(fr, sp), q);
        },
        None => {},
    }
    paren_exec(src, b, p)
}

/// Whether an argument-list result agrees with its model.
pub open spec fn args_agree(
    r: Step<(FunctionArgumentList, usize)>,
    m: StepV<(Seq<ExprV>, Span, int)>,
) -> bool {
    match (r, m) {
        (Step::Done((al, c), w), StepV::Done((args, sp, c2), w2)) => exprs_view(al.0@) == args
            && al.1 == sp && c == c2 && w == w2,
        (Step::Fatal(e), StepV::Fatal(e2)) => e@ == e2,
        (Step::Backtrack, StepV::Backtrack) => true,
        _ => false,
    }
}

pub(crate) fn function_exec(src: &str, b: &[u8], p: usize) -> (r: Step<Expression>)
    requires
        b@ == src.spec_bytes(),
        p <= b.len(),
        char_start(b@, p as int),
    ensures
        r@ == function_spec(b@, p as int),
        step_ok(r, b@, p as int),
    decreases b.len() - p, 5int,
{
    let ghost s = b@;
    match function_name_exec(b, p) {
        None => Step::Backtrack,
        Some((f, t, a, u)) => {
            proof {
                lemma_trivia_end(s, p as int);
                lemma_alpha_end(s, t as int);
                lemma_trivia_end(s, a as int);
            }
            if u < b.len() && b[u] == 0x28u8 {
                match args_exec(src, b, u) {
                    Step::Done((args, close), w) => {
                        let func = Function { fname: f, args };
                        Step::Done(Expression::Function(Box::new(func), Span::new(t, close + 1)), w)
                    },
                    Step::Fatal(e) => Step::Fatal(e),
                    Step::Backtrack => Step::Backtrack,
                }
            } else {
                Step::Backtrack
            }
        },
    }
}

proof fn lemma_exprs_view_push(v: Seq<Expression>, e: Expression)
    ensures
        exprs_view(v.push(e)) == exprs_view(v).push(e@),
{
    assert(v.push(e).drop_last() =~= v);
}

#[verifier::rlimit(40)]
#[verifier::spinoff_prover]
pub(crate) fn args_exec(src: &str, b: &[u8], u: usize) -> (r: Step<(FunctionArgumentList, usize)>)
    requires
        b@ == src.spec_bytes(),
        u < b.len(),
        b@[u as int] == 0x28u8,
    ensures
        args_agree(r, args_spec(b@, u as int)),
        r matches Step::Done((_, c), w) ==> u < c < w <= b.len() && b@[c as int] == 0x29u8
            && char_start(b@, w as int),
        r matches Step::Fatal(e) ==> e.offset <= b.len() && char_start(b@, e.offset as int),
    decreases b.len() - u, 4int,
{
    let ghost s = b@;
    proof {
        lemma_after_ascii_char_start(s, u + 1);
        lemma_trivia_char_start(s, u + 1);
    }
    let v = skip_trivia(b, u + 1);
    if v < b.len() && b[v] == 0x29u8 {
        let w = skip_trivia(b, v + 1);
        proof {
            lemma_after_ascii_char_start(s, v + 1);
            lemma_trivia_char_start(s, v + 1);
        }
        let none: Vec<Expression> = Vec::new();
        proof {
            assert(exprs_view(none@) =~= Seq::<ExprV>::empty());
        }
        return Step::Done((FunctionArgumentList(none, Span::new(v, v)), v), w);
    }
    let (e1, p1) = match expr_exec(src, b, v) {
        Step::Done(e, q) => (e, q),
        Step::Fatal(e) => {
            return Step::Fatal(e);
        },
        Step::Backtrack => {
            return Step::Backtrack;
        },
    };
    let mut args: Vec<Expression> = Vec::new();
    proof {
        lemma_exprs_view_push(args@, e1);
        assert(exprs_view(Seq::<Expression>::empty()) =~= Seq::<ExprV>::empty());
    }
    let ghost e1v = e1@;
    args.push(e1);
    proof {
        assert(args@ =~= Seq::<Expression>::empty().push(e1));
        assert(exprs_view(args@) =~= seq![e1v]);
    }
    let mut p = p1;
    let mut go = true;
    while go
        invariant
            b@ == src.spec_bytes(),
            s == b@,
            u < v < p1 <= p <= b.len(),
            char_start(s, p as int),
            args_spec(s, u as int) == args_loop_spec(s, seq![e1v], p1 as int, v as int),
            args_loop_spec(s, seq![e1v], p1 as int, v as int) == (if go {
                args_loop_spec(s, exprs_view(args@), p as int, v as int)
            } else {
                args_close_spec(s, exprs_view(args@), p as int, v as int)
            }),
        decreases b.len() - p + (if go { 1int } else { 0int }),
    {
        let t = skip_trivia(b, p);
        proof {
            lemma_trivia_char_start(s, p as int);
        }
        if t < b.len() && b[t] == 0x2cu8 {
            let c = skip_trivia(b, t + 1);
            proof {
                lemma_after_ascii_char_start(s, t + 1);
                lemma_trivia_char_start(s, t + 1);
            }
            match expr_exec(src, b, c) {
                Step::Done(e2, p2) => {
                    proof {
                        lemma_exprs_view_push(args@, e2);
                    }
                    args.push(e2);
                    p = p2;
                },
                Step::Fatal(e) => {
                    return Step::Fatal(e);
                },
                Step::Backtrack => {
                    go = false;
                },
            }
        } else {
            go = false;
        }
    }
    let t = skip_trivia(b, p);
    proof {
        lemma_trivia_char_start(s, p as int);
    }
    if t < b.len() && b[t] == 0x29u8 {
        let w = skip_trivia(b, t + 1);
        proof {
            lemma_after_ascii_char_start(s, t + 1);
            lemma_trivia_char_start(s, t + 1);
        }
        Step::Done((FunctionArgumentList(args, Span::new(v, p)), t), w)
    } else {
        let mut ctx: Vec<Context> = Vec::new();
        ctx.push(Context::Expected(Expected::CloseParen));
        proof {
            assert(ctx@ =~= seq![Context::Expected(Expected::CloseParen)]);
        }
        Step::Fatal(ParseError { offset: t, contexts: ctx })
    }
}

fn paren_exec(src: &str, b: &[u8], p: usize) -> (r: Step<Expression>)
    requires
        b@ == src.spec_bytes(),
        p <= b.len(),
        char_start(b@, p as int),
    ensures
        r@ == paren_spec(b@, p as int),
        step_ok(r, b@, p as int),
    decreases b.len() - p, 5int,
{
    let ghost s = b@;
    let t = skip_trivia(b, p);
    proof {
        lemma_trivia_char_start(s, p as int);
    }
    if t < b.len() && b[t] == 0x28u8 {
        proof {
            lemma_after_ascii_char_start(s, t + 1);
            lemma_trivia_char_start(s, t + 1);
        }
        let v = skip_trivia(b, t + 1);
        match expr_exec(src, b, v) {
            Step::Done(e, q) => {
                let c = skip_trivia(b, q);
                proof {
                    lemma_trivia_char_start(s, q as int);
                }
                if c < b.len() && b[c] == 0x29u8 {
                    let w = skip_trivia(b, c + 1);
                    proof {
                        lemma_after_ascii_char_start(s, c + 1);
                        lemma_trivia_char_start(s, c + 1);
                    }
                    Step::Done(e, w)
                } else {
                    let mut ctx: Vec<Context> = Vec::new();
                    ctx.push(Context::Expected(Expected::CloseParen));
                    ctx.push(Context::Label(Label::ParenthesizedClose));
                    proof {
                        assert(ctx@ =~= seq![
                            Context::Expected(Expected::CloseParen),
                            Context::Label(Label::ParenthesizedClose),
                        ]);
                    }
                    Step::Fatal(ParseError { offset: c, contexts: ctx })
                }
            },
            Step::Fatal(e) => Step::Fatal(e),
            Step::Backtrack => Step::Backtrack,
        }
    } else {
        Step::Backtrack
    }
}

/// Parses an expression at byte offset `pos`, with the whitespace and comments around it:
/// the expression and where parsing stopped.
pub fn parse_expression(input: &str, pos: usize) -> (r: Result<(Expression, usize), ParseError>)
    requires
        char_start(input.spec_bytes(), pos as int),
    ensures
        r matches Ok((e, q)) ==> expr_spec(input.spec_bytes(), pos as int) == StepV::Done(
            e@,
            q as int,
        ),
        r matches Err(err) ==> expr_spec(input.spec_bytes(), pos as int) == StepV::<ExprV>::Fatal(
            err@,
        ),
        r matches Ok((e, q)) ==> pos < q <= input.spec_bytes().len() && char_start(
            input.spec_bytes(),
            q as int,
        ),
        r matches Err(err) ==> err.offset <= input.spec_bytes().len() && char_start(
            input.spec_bytes(),
            err.offset as int,
        ),
{
    let b = input.as_bytes();
    match expr_exec(input, b, pos) {
        Step::Done(e, q) => Ok((e, q)),
        Step::Fatal(err) => Err(err),
        Step::Backtrack => Err(ParseError { offset: pos, contexts: Vec::new() }),
    }
}

/// Parses a whole formula: an expression that must take up all of the input. Text left over
/// after the expression is an error where that text starts.
pub fn parse_formula(input: &str) -> (r: Result<Expression, ParseError>)
    ensures
        r matches Ok(e) ==> formula_spec(input.spec_bytes()) == Ok::<ExprV, ParseErrorV>(e@),
        r matches Err(err) ==> formula_spec(input.spec_bytes()) == Err::<ExprV, ParseErrorV>(
            err@,
        ),
        r matches Err(err) ==> err.offset <= input.spec_bytes().len() && char_start(
            input.spec_bytes(),
            err.offset as int,
        ),
{
    let b = input.as_bytes();
    match parse_expression(input, 0) {
        Ok((e, q)) => if q == b.len() {
            Ok(e)
        } else {
            Err(ParseError { offset: q, contexts: Vec::new() })
        },
        Err(err) => Err(err),
    }
}

} // verus!
