//! Arithmetic expressions: the tree the parser builds, the names it knows,
//! and which evaluations fail.
use vstd::prelude::*;
use crate::text::text_is;
use crate::tokenizer::{Decimal, DecimalView, Number, NumberView};

verus! {

/// The binary operators of the expression language.
#[derive(Clone, Copy, Debug, PartialEq, Eq, Structural)]
pub enum BinOp {
    Add,
    Sub,
    Mul,
    Div,
    Mod,
    Pow,
}

/// How tightly an operator binds: `+ -` below `* / %` below `^`.
pub open spec fn precedence(op: BinOp) -> nat {
    match op {
        BinOp::Add | BinOp::Sub => 1,
        BinOp::Mul | BinOp::Div | BinOp::Mod => 2,
        BinOp::Pow => 3,
    }
}

pub open spec fn right_assoc(op: BinOp) -> bool {
    op == BinOp::Pow
}

/// The least precedence an operator's right operand may hold at its top:
/// equal for the right-associative `^`, one more for the others.
pub open spec fn rhs_min(op: BinOp) -> nat {
    if right_assoc(op) {
        precedence(op)
    } else {
        precedence(op) + 1
    }
}

/// The one-argument math functions callable from expressions.
#[derive(Clone, Copy, Debug, PartialEq, Eq, Structural)]
pub enum MathFunc {
    Sin,
    Cos,
    Tan,
    Ln,
    Log10,
    Log2,
    Sqrt,
    Abs,
    Round,
    Floor,
    Ceil,
    Rad,
    Deg,
}

/// The function a name calls, if it names one.
pub open spec fn func_of(w: Seq<char>) -> Option<MathFunc> {
    if w == "sin"@ {
        Some(MathFunc::Sin)
    } else if w == "cos"@ {
        Some(MathFunc::Cos)
    } else if w == "tan"@ {
        Some(MathFunc::Tan)
    } else if w == "ln"@ {
        Some(MathFunc::Ln)
    } else if w == "lg"@ || w == "log10"@ {
        Some(MathFunc::Log10)
    } else if w == "log2"@ {
        Some(MathFunc::Log2)
    } else if w == "sqrt"@ {
        Some(MathFunc::Sqrt)
    } else if w == "abs"@ {
        Some(MathFunc::Abs)
    } else if w == "round"@ {
        Some(MathFunc::Round)
    } else if w == "floor"@ {
        Some(MathFunc::Floor)
    } else if w == "ceil"@ {
        Some(MathFunc::Ceil)
    } else if w == "rad"@ {
        Some(MathFunc::Rad)
    } else if w == "deg"@ {
        Some(MathFunc::Deg)
    } else {
        None
    }
}

impl MathFunc {
    /// The function `s` names, if any.
    pub fn from_name(s: &[char]) -> (r: Option<MathFunc>)
        ensures
            r == func_of(s@),
    {
        if text_is(s, "sin") {
            Some(MathFunc::Sin)
        } else if text_is(s, "cos") {
            Some(MathFunc::Cos)
        } else if text_is(s, "tan") {
            Some(MathFunc::Tan)
        } else if text_is(s, "ln") {
            Some(MathFunc::Ln)
        } else if text_is(s, "lg") || text_is(s, "log10") {
            Some(MathFunc::Log10)
        } else if text_is(s, "log2") {
            Some(MathFunc::Log2)
        } else if text_is(s, "sqrt") {
            Some(MathFunc::Sqrt)
        } else if text_is(s, "abs") {
            Some(MathFunc::Abs)
        } else if text_is(s, "round") {
            Some(MathFunc::Round)
        } else if text_is(s, "floor") {
            Some(MathFunc::Floor)
        } else if text_is(s, "ceil") {
            Some(MathFunc::Ceil)
        } else if text_is(s, "rad") {
            Some(MathFunc::Rad)
        } else if text_is(s, "deg") {
            Some(MathFunc::Deg)
        } else {
            None
        }
    }

    pub fn is_func(s: &[char]) -> (r: bool)
        ensures
            r == func_of(s@).is_some(),
    {
        MathFunc::from_name(s).is_some()
    }
}

/// An expression tree. Each node owns its children; binary nodes hold their
/// left operand first.
#[derive(Debug, PartialEq)]
pub enum Expression {
    Add(Box<Expression>, Box<Expression>),
    Sub(Box<Expression>, Box<Expression>),
    Mul(Box<Expression>, Box<Expression>),
    Div(Box<Expression>, Box<Expression>),
    Pow(Box<Expression>, Box<Expression>),
    Mod(Box<Expression>, Box<Expression>),
    Call(MathFunc, Box<Expression>),
    VarOrConst(String),
    Lit(Number),
}

pub ghost enum ExprView {
    Bin(BinOp, Box<ExprView>, Box<ExprView>),
    Call(MathFunc, Box<ExprView>),
    Var(Seq<char>),
    Lit(NumberView),
}

/// The mathematical form of an expression tree.
pub open spec fn expr_view(e: Expression) -> ExprView
    decreases e,
{
    match e {
        Expression::Add(a, b) => bin_view(BinOp::Add, expr_view(*a), expr_view(*b)),
        Expression::Sub(a, b) => bin_view(BinOp::Sub, expr_view(*a), expr_view(*b)),
        Expression::Mul(a, b) => bin_view(BinOp::Mul, expr_view(*a), expr_view(*b)),
        Expression::Div(a, b) => bin_view(BinOp::Div, expr_view(*a), expr_view(*b)),
        Expression::Pow(a, b) => bin_view(BinOp::Pow, expr_view(*a), expr_view(*b)),
        Expression::Mod(a, b) => bin_view(BinOp::Mod, expr_view(*a), expr_view(*b)),
        Expression::Call(f, a) => ExprView::Call(f, Box::new(expr_view(*a))),
        Expression::VarOrConst(s) => ExprView::Var(s@),
        Expression::Lit(n) => ExprView::Lit(n@),
    }
}

impl View for Expression {
    type V = ExprView;

    open spec fn view(&self) -> ExprView {
        expr_view(*self)
    }
}

pub fn copy_digits(v: &Vec<u8>) -> (r: Vec<u8>)
    ensures
        r@ == v@,
{
    let mut r: Vec<u8> = Vec::new();
    let mut i: usize = 0;
    while i < v.len()
        invariant
            i <= v@.len(),
            r@ == v@.subrange(0, i as int),
        decreases v@.len() - i,
    {
        r.push(v[i]);
        i = i + 1;
        assert(r@ =~= v@.subrange(0, i as int));
    }
    assert(r@ =~= v@);
    r
}

impl Decimal {
    pub fn copy(&self) -> (r: Decimal)
        ensures
            r@ == self@,
    {
        Decimal { whole: copy_digits(&self.whole), frac: copy_digits(&self.frac) }
    }

    /// The decimal with this one whole digit.
    pub fn digit(d: u8) -> (r: Decimal)
        ensures
            r@ == (DecimalView { whole: seq![d], frac: Seq::empty() }),
    {
        let mut whole: Vec<u8> = Vec::new();
        whole.push(d);
        let r = Decimal { whole, frac: Vec::new() };
        assert(r@.whole =~= seq![d]);
        assert(r@.frac =~= Seq::<u8>::empty());
        r
    }
}

impl Number {
    pub fn copy(&self) -> (r: Number)
        ensures
            r@ == self@,
    {
        match self {
            Number::Integer(d) => Number::Integer(copy_digits(d)),
            Number::Real(d) => Number::Real(d.copy()),
            Number::Duration(d, u) => Number::Duration(d.copy(), *u),
            Number::Frequency(d) => Number::Frequency(d.copy()),
        }
    }
}

pub open spec fn bin_view(op: BinOp, a: ExprView, b: ExprView) -> ExprView {
    ExprView::Bin(op, Box::new(a), Box::new(b))
}

impl Expression {
    /// The literal zero.
    pub fn zero() -> (r: Expression)
        ensures
            r@ == ExprView::Lit(NumberView::Real(DecimalView { whole: seq![0u8], frac: Seq::empty() })),
    {
        Expression::Lit(Number::Real(Decimal::digit(0)))
    }

    pub fn binary(op: BinOp, a: Expression, b: Expression) -> (r: Expression)
        ensures
            r@ == bin_view(op, a@, b@),
    {
        match op {
            BinOp::Add => Expression::Add(Box::new(a), Box::new(b)),
            BinOp::Sub => Expression::Sub(Box::new(a), Box::new(b)),
            BinOp::Mul => Expression::Mul(Box::new(a), Box::new(b)),
            BinOp::Div => Expression::Div(Box::new(a), Box::new(b)),
            BinOp::Mod => Expression::Mod(Box::new(a), Box::new(b)),
            BinOp::Pow => Expression::Pow(Box::new(a), Box::new(b)),
        }
    }
}

#[derive(Clone, Debug, PartialEq)]
pub enum ExpressionError {
    UnknownVar(String),
    NoGenInfo,
}

pub ghost enum ExprErrorView {
    UnknownVar(Seq<char>),
    NoGenInfo,
}

impl View for ExpressionError {
    type V = ExprErrorView;

    open spec fn view(&self) -> ExprErrorView {
        match self {
            ExpressionError::UnknownVar(s) => ExprErrorView::UnknownVar(s@),
            ExpressionError::NoGenInfo => ExprErrorView::NoGenInfo,
        }
    }
}

/// What a name in an expression stands for.
#[derive(Clone, Copy, Debug, PartialEq, Eq, Structural)]
pub enum Variable {
    Pi,
    E,
    Channel,
    Time,
}

/// What a name resolves to, given whether a generation context (a channel and
/// a time) is at hand: `pi` and `e` always, `t` and `channel` (or `ch`) only
/// with a context.
pub open spec fn resolve_spec(name: Seq<char>, has_context: bool) -> Result<Variable, ExprErrorView> {
    if name == "pi"@ {
        Ok(Variable::Pi)
    } else if name == "e"@ {
        Ok(Variable::E)
    } else if name == "channel"@ || name == "ch"@ {
        if has_context {
            Ok(Variable::Channel)
        } else {
            Err(ExprErrorView::NoGenInfo)
        }
    } else if name == "t"@ {
        if has_context {
            Ok(Variable::Time)
        } else {
            Err(ExprErrorView::NoGenInfo)
        }
    } else {
        Err(ExprErrorView::UnknownVar(name))
    }
}

/// Whether evaluating `e` fails, and with which error: operands are evaluated
/// left before right, and the first failure is the one reported.
pub open spec fn check_spec(e: ExprView, has_context: bool) -> Result<(), ExprErrorView>
    decreases e,
{
    match e {
        ExprView::Bin(_, a, b) => match check_spec(*a, has_context) {
            Ok(_) => check_spec(*b, has_context),
            Err(x) => Err(x),
        },
        ExprView::Call(_, a) => check_spec(*a, has_context),
        ExprView::Var(name) => match resolve_spec(name, has_context) {
            Ok(_) => Ok(()),
            Err(x) => Err(x),
        },
        ExprView::Lit(_) => Ok(()),
    }
}

pub fn resolve_var(name: &str, has_context: bool) -> (r: Result<Variable, ExpressionError>)
    ensures
        match resolve_spec(name@, has_context) {
            Ok(v) => r == Ok::<Variable, ExpressionError>(v),
            Err(x) => r matches Err(y) && y@ == x,
        },
{
    let v: Vec<char> = crate::text::chars_of(name);
    if text_is(v.as_slice(), "pi") {
        Ok(Variable::Pi)
    } else if text_is(v.as_slice(), "e") {
        Ok(Variable::E)
    } else if text_is(v.as_slice(), "channel") || text_is(v.as_slice(), "ch") {
        if has_context {
            Ok(Variable::Channel)
        } else {
            Err(ExpressionError::NoGenInfo)
        }
    } else if text_is(v.as_slice(), "t") {
        if has_context {
            Ok(Variable::Time)
        } else {
            Err(ExpressionError::NoGenInfo)
        }
    } else {
        Err(ExpressionError::UnknownVar(String::from_str(name)))
    }
}

impl Expression {
    /// Whether evaluating this expression fails, with or without a
    /// generation context, and with which error.
    pub fn check(&self, has_context: bool) -> (r: Result<(), ExpressionError>)
        ensures
            match check_spec(self@, has_context) {
                Ok(_) => r is Ok,
                Err(x) => r matches Err(y) && y@ == x,
            },
        decreases self,
    {
        match self {
            Expression::Add(a, b) | Expression::Sub(a, b) | Expression::Mul(a, b) | Expression::Div(
                a,
                b,
            ) | Expression::Pow(a, b) | Expression::Mod(a, b) => {
                match a.check(has_context) {
                    Ok(_) => b.check(has_context),
                    Err(x) => Err(x),
                }
            },
            Expression::Call(_, a) => a.check(has_context),
            Expression::VarOrConst(name) => match resolve_var(name.as_str(), has_context) {
                Ok(_) => Ok(()),
                Err(x) => Err(x),
            },
            Expression::Lit(_) => Ok(()),
        }
    }
}

/// Evaluating a context name (`t`, `channel`, `ch`) without a generation
/// context fails with the missing-context error, and succeeds with one; the
/// constants `pi` and `e` need no context.
pub proof fn lemma_context_requirement(name: Seq<char>)
    ensures
        (name == "t"@ || name == "channel"@ || name == "ch"@) ==> check_spec(
            ExprView::Var(name),
            false,
        ) == Err::<(), ExprErrorView>(ExprErrorView::NoGenInfo) && check_spec(
            ExprView::Var(name),
            true,
        ) is Ok,
        (name == "pi"@ || name == "e"@) ==> check_spec(ExprView::Var(name), false) is Ok,
{
    reveal_strlit("t");
    reveal_strlit("channel");
    reveal_strlit("ch");
    reveal_strlit("pi");
    reveal_strlit("e");
    assert("t"@ != "pi"@) by {
        assert("t"@.len() != "pi"@.len());
    }
    assert("t"@ != "e"@) by {
        assert("t"@[0] != "e"@[0]);
    }
    assert("channel"@ != "pi"@) by {
        assert("channel"@.len() != "pi"@.len());
    }
    assert("channel"@ != "e"@) by {
        assert("channel"@.len() != "e"@.len());
    }
    assert("ch"@ != "pi"@) by {
        assert("ch"@[0] != "pi"@[0]);
    }
    assert("ch"@ != "e"@) by {
        assert("ch"@.len() != "e"@.len());
    }
}

} // verus!
