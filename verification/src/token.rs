use crate::function_names::FunctionName;
use vstd::prelude::*;

verus! {

/// A half-open range of byte offsets into the source text.
#[derive(Debug, Clone, Copy, PartialEq, Eq, Structural, Hash)]
pub struct Span {
    pub start: usize,
    pub end: usize,
}

impl Span {
    pub fn new(start: usize, end: usize) -> (r: Span)
        ensures
            r.start == start && r.end == end,
    {
        Span { start, end }
    }

    /// The number of bytes the span covers.
    pub open spec fn len(self) -> int {
        self.end - self.start
    }
}

/// The span from `a` to `b`.
pub open spec fn span(a: int, b: int) -> Span {
    Span { start: a as usize, end: b as usize }
}

/// A text string or number you enter that is not calculated or changed.
///
/// A number keeps the text it was written with (for example `0.02`); the value it denotes is
/// the decimal number that text spells. Text keeps what stands between its quotes, as written.
#[derive(Debug, Clone, PartialEq)]
pub enum LiteralValue {
    Checkbox(bool),
    Number(String),
    Text(String),
    Null,
}

/// The mathematical model of a literal.
pub enum LiteralV {
    Checkbox(bool),
    Number(Seq<char>),
    Text(Seq<char>),
    Null,
}

impl View for LiteralValue {
    type V = LiteralV;

    open spec fn view(&self) -> LiteralV {
        match self {
            LiteralValue::Checkbox(b) => LiteralV::Checkbox(*b),
            LiteralValue::Number(s) => LiteralV::Number(s@),
            LiteralValue::Text(s) => LiteralV::Text(s@),
            LiteralValue::Null => LiteralV::Null,
        }
    }
}

/// A reference to a field, possibly through a relationship: `Account.Name`. A reference read
/// from a longer chain such as `Account.Owner.Name` keeps only its first two names.
#[derive(Debug, PartialEq)]
pub struct FieldReference {
    pub field: String,
    pub next: Option<Box<FieldReference>>,
}

/// The names of a field reference, from the first to the last.
pub open spec fn field_names(f: FieldReference) -> Seq<Seq<char>>
    decreases f,
{
    seq![f.field@] + match f.next {
        Some(n) => field_names(*n),
        None => Seq::empty(),
    }
}

impl View for FieldReference {
    type V = Seq<Seq<char>>;

    open spec fn view(&self) -> Seq<Seq<char>> {
        field_names(*self)
    }
}

#[derive(Debug, Clone, Copy, PartialEq, Eq, Structural)]
pub enum Operator {
    /// Calculates the sum of two values.
    Add,
    /// Calculates the difference of two values.
    Subtract,
    /// Multiplies its values.
    Multiply,
    /// Divides its values.
    Divide,
    /// Raises a number to a power of a specified number.
    Exponentiation,
    /// Evaluates if two values are equivalent. The = and == operators are interchangeable.
    Equal,
    /// Evaluates if two values aren’t equivalent.
    NotEqual,
    /// Evaluates if a value is less than the value that follows this symbol.
    LessThan,
    /// Evaluates if a value is greater than the value that follows this symbol.
    GreaterThan,
    /// Evaluates if a value is less than or equal to the value that follows this symbol.
    LessThanOrEqual,
    /// Evaluates if a value is greater than or equal to the value that follows this symbol.
    GreaterThanOrEqual,
    /// Evaluates if two values or expressions are both true. Use this operator as an alternative to the logical function AND.
    And,
    /// Evaluates if at least one of multiple values or expressions is true. Use this operator as an alternative to the logical function OR.
    Or,
    /// Connects two or more strings.
    Concatenate,
    /// Logical negation of the value that follows.
    Not,
    /// Arithmetic negation of the value that follows.
    Negative,
}

/// The arguments of a function call, with the span of source text they occupy.
#[derive(Debug, PartialEq)]
pub struct FunctionArgumentList(pub Vec<Expression>, pub Span);

#[derive(Debug, PartialEq)]
pub struct BinaryExpr(pub Expression, pub Operator, pub Expression);

#[derive(Debug, PartialEq)]
pub struct UnaryExpr(pub Operator, pub Expression);

/// The text of a `/* ... */` comment, without its delimiters.
#[derive(Debug, Clone, PartialEq)]
pub struct Comment(pub String);

#[derive(Debug, PartialEq)]
pub struct Function {
    pub fname: FunctionName,
    pub args: FunctionArgumentList,
}

/// A formula expression. Each node carries the byte span of the source text it was parsed from.
#[derive(Debug, PartialEq)]
pub enum Expression {
    Function(Box<Function>, Span),
    FieldRef(FieldReference, Span),
    Literal(LiteralValue, Span),
    BinaryExpr(Box<BinaryExpr>, Span),
    UnaryExpr(Box<UnaryExpr>, Span),
}

/// The mathematical model of an expression.
pub enum ExprV {
    Function { fname: FunctionName, args: Seq<ExprV>, args_span: Span, span: Span },
    FieldRef { names: Seq<Seq<char>>, span: Span },
    Literal { value: LiteralV, span: Span },
    Binary { lhs: Box<ExprV>, op: Operator, rhs: Box<ExprV>, span: Span },
    Unary { op: Operator, operand: Box<ExprV>, span: Span },
}

pub open spec fn expr_view(e: Expression) -> ExprV
    decreases e,
{
    match e {
        Expression::Function(f, r) => ExprV::Function {
            fname: f.fname,
            args: exprs_view(f.args.0@),
            args_span: f.args.1,
            span: r,
        },
        Expression::FieldRef(f, r) => ExprV::FieldRef { names: f@, span: r },
        Expression::Literal(l, r) => ExprV::Literal { value: l@, span: r },
        Expression::BinaryExpr(b, r) => ExprV::Binary {
            lhs: Box::new(expr_view(b.0)),
            op: b.1,
            rhs: Box::new(expr_view(b.2)),
            span: r,
        },
        Expression::UnaryExpr(u, r) => ExprV::Unary {
            op: u.0,
            operand: Box::new(expr_view(u.1)),
            span: r,
        },
    }
}

pub open spec fn exprs_view(s: Seq<Expression>) -> Seq<ExprV>
    decreases s,
{
    if s.len() == 0 {
        Seq::empty()
    } else {
        exprs_view(s.drop_last()).push(expr_view(s.last()))
    }
}

impl View for Expression {
    type V = ExprV;

    open spec fn view(&self) -> ExprV {
        expr_view(*self)
    }
}

/// The span of an expression.
pub open spec fn ev_span(e: ExprV) -> Span {
    match e {
        ExprV::Function { span, .. } => span,
        ExprV::FieldRef { span, .. } => span,
        ExprV::Literal { span, .. } => span,
        ExprV::Binary { span, .. } => span,
        ExprV::Unary { span, .. } => span,
    }
}

/// The span of an expression.
pub fn span_of(e: &Expression) -> (r: Span)
    ensures
        r == ev_span(e@),
{
    match e {
        Expression::Function(_, r) => *r,
        Expression::FieldRef(_, r) => *r,
        Expression::Literal(_, r) => *r,
        Expression::BinaryExpr(_, r) => *r,
        Expression::UnaryExpr(_, r) => *r,
    }
}

impl Expression {
    pub fn function(f: Function, r: Span) -> (e: Self)
        ensures
            e == Expression::Function(Box::new(f), r),
    {
        Expression::Function(Box::new(f), r)
    }

    pub fn field_ref(f: FieldReference, r: Span) -> (e: Self)
        ensures
            e == Expression::FieldRef(f, r),
    {
        Expression::FieldRef(f, r)
    }

    pub fn literal(l: LiteralValue, r: Span) -> (e: Self)
        ensures
            e == Expression::Literal(l, r),
    {
        Expression::Literal(l, r)
    }

    pub fn binary_expr(r: Span, b: BinaryExpr) -> (e: Self)
        ensures
            e == Expression::BinaryExpr(Box::new(b), r),
    {
        Expression::BinaryExpr(Box::new(b), r)
    }

    pub fn unary_expr(u: UnaryExpr, r: Span) -> (e: Self)
        ensures
            e == Expression::UnaryExpr(Box::new(u), r),
    {
        Expression::UnaryExpr(Box::new(u), r)
    }

    /// `a op b`, spanning from the start of `a` to the end of `b`.
    pub fn from_binary_expr(a: Expression, op: Operator, b: Expression) -> (e: Self)
        ensures
            e@ == (ExprV::Binary {
                lhs: Box::new(a@),
                op,
                rhs: Box::new(b@),
                span: Span { start: ev_span(a@).start, end: ev_span(b@).end },
            }),
    {
        let r = Span::new(span_of(&a).start, span_of(&b).end);
        Expression::BinaryExpr(Box::new(BinaryExpr(a, op, b)), r)
    }
}

impl Function {
    pub fn new(fname: FunctionName, args: FunctionArgumentList) -> (f: Self)
        ensures
            f == (Function { fname, args }),
    {
        Function { fname, args }
    }
}

impl FunctionArgumentList {
    pub fn new(args: Vec<Expression>, r: Span) -> (l: Self)
        ensures
            l == FunctionArgumentList(args, r),
    {
        FunctionArgumentList(args, r)
    }

    /// The list with `arg` added at its end.
    pub fn add_argument(self, arg: Expression) -> (l: Self)
        ensures
            l.0@ == self.0@.push(arg),
            l.1 == self.1,
    {
        let mut this = self;
        this.0.push(arg);
        this
    }
}

} // verus!
