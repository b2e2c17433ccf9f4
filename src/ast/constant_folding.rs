//! Constant folding: a bottom-up rewrite that collapses an operator applied to
//! literal operands into one literal. Integer and boolean arithmetic is done
//! here; floating-point arithmetic is delegated to the caller, which supplies
//! it as a function from `FloatCalc` to `FloatResult`.

use vstd::prelude::*;
use num::Integer;
use crate::lexer::keywords::text_less;
use crate::ast::{
    field_keys_ascending, expr_view, exprs_view, fields_view, lit_view, block_view, stmt_view, function_view, functions_view,
    item_view, items_view, module_view, ArrayLiteral, BinOp, Block, ExprV, Expression, Function, FunctionV,
    Item, ItemV, LitV, Literal, Module, ModuleV, ObjectLiteral, Statement, StmtV, TypeImpl, Lambda,
    IfElse, Loop, ForLoop, WhileLoop,
};

verus! {

/// An operand of floating-point arithmetic: an integer, promoted to a double
/// by the arithmetic, or a double given by its bit pattern.
#[derive(Copy, Clone, Debug, PartialEq, Eq, Structural)]
pub enum Number {
    Int(i64),
    Float(u64),
}

/// A floating-point computation the folder needs.
#[derive(Copy, Clone, Debug, PartialEq, Eq, Structural)]
pub enum FloatCalc {
    /// Arithmetic negation of a double.
    Negate(u64),
    /// A comparison (`Equal` to `GreaterOrEqual`) or an arithmetic operator
    /// (`Add`, `Sub`, `Mul`, `Div`, `Rem`) applied to two numbers, at least one
    /// of them a double. An integer operand is first converted to a double.
    /// `Rem` stands for `x - y * round(x / y)`; the folder asks for it for both
    /// `Rem` and `Mod`, which on doubles are the same operation.
    Binary(BinOp, Number, Number),
}

/// The outcome of a `FloatCalc`.
#[derive(Copy, Clone, Debug, PartialEq, Eq, Structural)]
pub enum FloatResult {
    Float(u64),
    Bool(bool),
}

/// The floating-point arithmetic that folding is carried out with.
pub type FloatSem = spec_fn(FloatCalc) -> FloatResult;

/// Whether the computation is a comparison, whose outcome is a boolean.
pub open spec fn is_comparison(c: FloatCalc) -> bool {
    match c {
        FloatCalc::Binary(op, _, _) => op == BinOp::Equal || op == BinOp::NotEqual || op == BinOp::LessThan
            || op == BinOp::LessOrEqual || op == BinOp::GreaterThan || op == BinOp::GreaterOrEqual,
        FloatCalc::Negate(_) => false,
    }
}

/// Whether `f` can be called on every computation and gives one result for
/// each: a boolean for a comparison, a double otherwise.
pub open spec fn float_ops_ok<F: Fn(FloatCalc) -> FloatResult>(f: &F) -> bool {
    &&& forall|c: FloatCalc| #[trigger] call_requires(*f, (c,))
    &&& forall|c: FloatCalc, r1: FloatResult, r2: FloatResult|
        #[trigger] call_ensures(*f, (c,), r1) && #[trigger] call_ensures(*f, (c,), r2) ==> r1 == r2
    &&& forall|c: FloatCalc, r: FloatResult| #[trigger] call_ensures(*f, (c,), r)
        ==> (if is_comparison(c) { r is Bool } else { r is Float })
}

/// The operator asked of the caller's arithmetic for `op` on doubles.
pub open spec fn float_op(op: BinOp) -> BinOp {
    if op == BinOp::Mod {
        BinOp::Rem
    } else {
        op
    }
}

/// The arithmetic that `f` computes.
pub open spec fn float_sem<F: Fn(FloatCalc) -> FloatResult>(f: &F) -> FloatSem {
    |c: FloatCalc| choose|r: FloatResult| call_ensures(*f, (c,), r)
}

pub open spec fn float_lit(r: FloatResult) -> LitV {
    match r {
        FloatResult::Float(b) => LitV::Float(b),
        FloatResult::Bool(b) => LitV::Bool(b),
    }
}

/// The value of `a mod b` rounded towards negative infinity: the result has
/// the sign of the divisor.
pub open spec fn floor_mod(a: i64, b: i64) -> i64 {
    let m = (a as int) % (b as int);
    if b < 0 && m != 0 {
        (m + b) as i64
    } else {
        m as i64
    }
}

/// Whether `a op b` is defined on 64-bit integers for a division operator:
/// a non-zero divisor, and no `MIN / -1`.
pub open spec fn divisible(a: i64, b: i64) -> bool {
    b != 0 && !(a == i64::MIN && b == -1)
}

pub open spec fn number(l: LitV) -> Number {
    match l {
        LitV::Integer(i) => Number::Int(i),
        LitV::Float(f) => Number::Float(f),
        _ => Number::Int(0),
    }
}

pub open spec fn is_number(l: LitV) -> bool {
    l is Integer || l is Float
}

pub open spec fn compare_ints(op: BinOp, a: i64, b: i64) -> bool {
    match op {
        BinOp::Equal => a == b,
        BinOp::NotEqual => a != b,
        BinOp::LessThan => a < b,
        BinOp::LessOrEqual => a <= b,
        BinOp::GreaterThan => a > b,
        _ => a >= b,
    }
}

pub open spec fn spec_logical(l: LitV, op: BinOp, r: LitV) -> Option<LitV> {
    match (l, r) {
        (LitV::Bool(a), LitV::Bool(b)) => if op == BinOp::LogicalOr {
            Some(LitV::Bool(a || b))
        } else {
            Some(LitV::Bool(a && b))
        },
        _ => None,
    }
}

pub open spec fn spec_equality(l: LitV, op: BinOp, r: LitV, fl: FloatSem) -> Option<LitV> {
    match (l, r) {
        (LitV::Bool(a), LitV::Bool(b)) => if op == BinOp::Equal {
            Some(LitV::Bool(a == b))
        } else if op == BinOp::NotEqual {
            Some(LitV::Bool(a != b))
        } else {
            None
        },
        (LitV::Integer(a), LitV::Integer(b)) => Some(LitV::Bool(compare_ints(op, a, b))),
        _ => if is_number(l) && is_number(r) {
            Some(float_lit(fl(FloatCalc::Binary(float_op(op), number(l), number(r)))))
        } else {
            None
        },
    }
}

pub open spec fn spec_bitwise(l: LitV, op: BinOp, r: LitV) -> Option<LitV> {
    match (l, r) {
        (LitV::Bool(a), LitV::Bool(b)) => Some(LitV::Bool(
            if op == BinOp::BitOr { a || b } else if op == BinOp::BitAnd { a && b } else { a != b },
        )),
        (LitV::Integer(a), LitV::Integer(b)) => Some(LitV::Integer(
            if op == BinOp::BitOr { a | b } else if op == BinOp::BitAnd { a & b } else { a ^ b },
        )),
        _ => None,
    }
}

/// Shifts by 0 to 63 places; a logical right shift fills with zeros, an
/// arithmetic one with the sign.
pub open spec fn spec_shift(l: LitV, op: BinOp, r: LitV) -> Option<LitV> {
    match (l, r) {
        (LitV::Integer(a), LitV::Integer(b)) => if 0 <= b < 64 {
            Some(LitV::Integer(
                if op == BinOp::LShiftLeft {
                    a << (b as u64)
                } else if op == BinOp::AShiftRight {
                    a >> (b as u64)
                } else {
                    ((a as u64) >> (b as u64)) as i64
                },
            ))
        } else {
            None
        },
        _ => None,
    }
}

/// Integer arithmetic where the result is a 64-bit integer: truncating
/// division and remainder, floor modulo.
pub open spec fn int_arith(op: BinOp, a: i64, b: i64) -> Option<i64> {
    match op {
        BinOp::Add => if i64::MIN <= a + b <= i64::MAX { Some((a + b) as i64) } else { None },
        BinOp::Sub => if i64::MIN <= a - b <= i64::MAX { Some((a - b) as i64) } else { None },
        BinOp::Mul => if i64::MIN <= a * b <= i64::MAX { Some((a * b) as i64) } else { None },
        BinOp::Div => if divisible(a, b) { a.checked_div(b) } else { None },
        BinOp::Rem => if divisible(a, b) { a.checked_rem(b) } else { None },
        _ => if divisible(a, b) { Some(floor_mod(a, b)) } else { None },
    }
}

pub open spec fn spec_arithmetic(l: LitV, op: BinOp, r: LitV, fl: FloatSem) -> Option<LitV> {
    match (l, r) {
        (LitV::Integer(a), LitV::Integer(b)) => match int_arith(op, a, b) {
            Some(x) => Some(LitV::Integer(x)),
            None => None,
        },
        _ => if is_number(l) && is_number(r) {
            Some(float_lit(fl(FloatCalc::Binary(float_op(op), number(l), number(r)))))
        } else {
            None
        },
    }
}

/// The literal that `l op r` folds to, if it folds.
pub open spec fn spec_simplify(l: LitV, op: BinOp, r: LitV, fl: FloatSem) -> Option<LitV> {
    match op {
        BinOp::LogicalOr | BinOp::LogicalAnd => spec_logical(l, op, r),
        BinOp::Equal | BinOp::NotEqual | BinOp::LessThan | BinOp::LessOrEqual
        | BinOp::GreaterThan | BinOp::GreaterOrEqual => spec_equality(l, op, r, fl),
        BinOp::BitOr | BinOp::BitAnd | BinOp::BitXor => spec_bitwise(l, op, r),
        BinOp::LShiftLeft | BinOp::LShiftRight | BinOp::AShiftRight => spec_shift(l, op, r),
        BinOp::Add | BinOp::Sub | BinOp::Mul | BinOp::Div | BinOp::Rem | BinOp::Mod => spec_arithmetic(l, op, r, fl),
        _ => None,
    }
}

/// Relies on num's `Integer::mod_floor` for `i64`: the remainder of division
/// rounded towards negative infinity. It panics on a zero divisor and on
/// `MIN mod -1`, which `requires` leaves out.
#[verifier::external_body]
fn mod_floor(a: i64, b: i64) -> (r: i64)
    requires
        divisible(a, b),
    ensures
        r == floor_mod(a, b),
{
    a.mod_floor(&b)
}

fn as_number(l: &Literal) -> (r: Option<Number>)
    ensures
        r is Some <==> is_number(lit_view(*l)),
        r matches Some(n) ==> n == number(lit_view(*l)),
{
    match l {
        Literal::Integer(i) => Some(Number::Int(*i)),
        Literal::Float(f) => Some(Number::Float(*f)),
        _ => None,
    }
}

fn from_float_result(r: FloatResult) -> (l: Literal)
    ensures
        lit_view(l) == float_lit(r),
{
    match r {
        FloatResult::Float(b) => Literal::Float(b),
        FloatResult::Bool(b) => Literal::Bool(b),
    }
}

/// Applies the caller's floating-point arithmetic to `c`.
fn float_calc<F: Fn(FloatCalc) -> FloatResult>(f: &F, c: FloatCalc) -> (r: Literal)
    requires
        float_ops_ok(f),
    ensures
        lit_view(r) == float_lit((float_sem(f))(c)),
        is_comparison(c) ==> lit_view(r) is Bool,
        !is_comparison(c) ==> lit_view(r) is Float,
{
    let x = f(c);
    assert(call_ensures(*f, (c,), x));
    proof {
        let y = choose|y: FloatResult| call_ensures(*f, (c,), y);
        assert(y == x);
    }
    from_float_result(x)
}

fn simplify_logical(lhs: &Literal, op: BinOp, rhs: &Literal) -> (r: Option<Literal>)
    requires
        op == BinOp::LogicalOr || op == BinOp::LogicalAnd,
    ensures
        match r {
            Some(x) => spec_logical(lit_view(*lhs), op, lit_view(*rhs)) == Some(lit_view(x)),
            None => spec_logical(lit_view(*lhs), op, lit_view(*rhs)) is None,
        },
{
    match (lhs, rhs) {
        (Literal::Bool(l), Literal::Bool(r)) => {
            if op == BinOp::LogicalOr {
                Some(Literal::Bool(*l || *r))
            } else {
                Some(Literal::Bool(*l && *r))
            }
        },
        _ => None,
    }
}

fn simplify_equality<F: Fn(FloatCalc) -> FloatResult>(lhs: &Literal, op: BinOp, rhs: &Literal, f: &F) -> (r: Option<Literal>)
    requires
        float_ops_ok(f),
    ensures
        match r {
            Some(x) => spec_equality(lit_view(*lhs), op, lit_view(*rhs), float_sem(f)) == Some(lit_view(x)),
            None => spec_equality(lit_view(*lhs), op, lit_view(*rhs), float_sem(f)) is None,
        },
{
    match (lhs, rhs) {
        (Literal::Bool(l), Literal::Bool(r)) => {
            if op == BinOp::Equal {
                Some(Literal::Bool(*l == *r))
            } else if op == BinOp::NotEqual {
                Some(Literal::Bool(*l != *r))
            } else {
                None
            }
        },
        (Literal::Integer(l), Literal::Integer(r)) => {
            let (l, r) = (*l, *r);
            let b = match op {
                BinOp::Equal => l == r,
                BinOp::NotEqual => l != r,
                BinOp::LessThan => l < r,
                BinOp::LessOrEqual => l <= r,
                BinOp::GreaterThan => l > r,
                _ => l >= r,
            };
            Some(Literal::Bool(b))
        },
        _ => match (as_number(lhs), as_number(rhs)) {
            (Some(l), Some(r)) => {
                let fop = if op == BinOp::Mod { BinOp::Rem } else { op };
                Some(float_calc(f, FloatCalc::Binary(fop, l, r)))
            },
            _ => None,
        },
    }
}

fn simplify_bitwise(lhs: &Literal, op: BinOp, rhs: &Literal) -> (r: Option<Literal>)
    ensures
        match r {
            Some(x) => spec_bitwise(lit_view(*lhs), op, lit_view(*rhs)) == Some(lit_view(x)),
            None => spec_bitwise(lit_view(*lhs), op, lit_view(*rhs)) is None,
        },
{
    match (lhs, rhs) {
        (Literal::Bool(l), Literal::Bool(r)) => {
            let b = if op == BinOp::BitOr {
                *l || *r
            } else if op == BinOp::BitAnd {
                *l && *r
            } else {
                *l != *r
            };
            Some(Literal::Bool(b))
        },
        (Literal::Integer(l), Literal::Integer(r)) => {
            let i = if op == BinOp::BitOr {
                *l | *r
            } else if op == BinOp::BitAnd {
                *l & *r
            } else {
                *l ^ *r
            };
            Some(Literal::Integer(i))
        },
        _ => None,
    }
}

fn simplify_shift(lhs: &Literal, op: BinOp, rhs: &Literal) -> (r: Option<Literal>)
    ensures
        match r {
            Some(x) => spec_shift(lit_view(*lhs), op, lit_view(*rhs)) == Some(lit_view(x)),
            None => spec_shift(lit_view(*lhs), op, lit_view(*rhs)) is None,
        },
{
    match (lhs, rhs) {
        (Literal::Integer(l), Literal::Integer(r)) => {
            if 0 <= *r && *r < 64 {
                let l = *l;
                let s = *r as u64;
                let i = if op == BinOp::LShiftLeft {
                    l << s
                } else if op == BinOp::AShiftRight {
                    l >> s
                } else {
                    ((l as u64) >> s) as i64
                };
                Some(Literal::Integer(i))
            } else {
                None
            }
        },
        _ => None,
    }
}

fn simplify_arithmetic<F: Fn(FloatCalc) -> FloatResult>(lhs: &Literal, op: BinOp, rhs: &Literal, f: &F) -> (r: Option<Literal>)
    requires
        float_ops_ok(f),
        op == BinOp::Add || op == BinOp::Sub || op == BinOp::Mul || op == BinOp::Div
            || op == BinOp::Rem || op == BinOp::Mod,
    ensures
        match r {
            Some(x) => spec_arithmetic(lit_view(*lhs), op, lit_view(*rhs), float_sem(f)) == Some(lit_view(x)),
            None => spec_arithmetic(lit_view(*lhs), op, lit_view(*rhs), float_sem(f)) is None,
        },
{
    match (lhs, rhs) {
        (Literal::Integer(l), Literal::Integer(r)) => {
            let (l, r) = (*l, *r);
            let v = match op {
                BinOp::Add => l.checked_add(r),
                BinOp::Sub => l.checked_sub(r),
                BinOp::Mul => l.checked_mul(r),
                BinOp::Div => if r != 0 && !(l == i64::MIN && r == -1) { l.checked_div(r) } else { None },
                BinOp::Rem => if r != 0 && !(l == i64::MIN && r == -1) { l.checked_rem(r) } else { None },
                _ => if r != 0 && !(l == i64::MIN && r == -1) { Some(mod_floor(l, r)) } else { None },
            };
            match v {
                Some(i) => Some(Literal::Integer(i)),
                None => None,
            }
        },
        _ => match (as_number(lhs), as_number(rhs)) {
            (Some(l), Some(r)) => {
                let fop = if op == BinOp::Mod { BinOp::Rem } else { op };
                Some(float_calc(f, FloatCalc::Binary(fop, l, r)))
            },
            _ => None,
        },
    }
}

/// The literal that `lhs op rhs` folds to, if it folds.
fn simplify_binary<F: Fn(FloatCalc) -> FloatResult>(lhs: &Literal, op: BinOp, rhs: &Literal, f: &F) -> (r: Option<Literal>)
    requires
        float_ops_ok(f),
    ensures
        match r {
            Some(x) => spec_simplify(lit_view(*lhs), op, lit_view(*rhs), float_sem(f)) == Some(lit_view(x)),
            None => spec_simplify(lit_view(*lhs), op, lit_view(*rhs), float_sem(f)) is None,
        },
{
    match op {
        BinOp::LogicalOr | BinOp::LogicalAnd => simplify_logical(lhs, op, rhs),
        BinOp::Equal | BinOp::NotEqual | BinOp::LessThan | BinOp::LessOrEqual
        | BinOp::GreaterThan | BinOp::GreaterOrEqual => simplify_equality(lhs, op, rhs, f),
        BinOp::BitOr | BinOp::BitAnd | BinOp::BitXor => simplify_bitwise(lhs, op, rhs),
        BinOp::LShiftLeft | BinOp::LShiftRight | BinOp::AShiftRight => simplify_shift(lhs, op, rhs),
        BinOp::Add | BinOp::Sub | BinOp::Mul | BinOp::Div | BinOp::Rem | BinOp::Mod => simplify_arithmetic(lhs, op, rhs, f),
        BinOp::Implements | BinOp::RangeExclusive | BinOp::RangeInclusive | BinOp::DivRem => None,
    }
}

// The fold, stated over the view of the tree.

/// `-x` where `x` is an integer or double literal.
pub open spec fn spec_negate(x: ExprV, fl: FloatSem) -> Option<ExprV> {
    match x {
        ExprV::Literal(LitV::Integer(i)) => if i != i64::MIN {
            Some(ExprV::Literal(LitV::Integer((-i) as i64)))
        } else {
            None
        },
        ExprV::Literal(LitV::Float(b)) => Some(ExprV::Literal(float_lit(fl(FloatCalc::Negate(b))))),
        _ => None,
    }
}

/// `!x` where `x` is a boolean (logical negation) or integer (bitwise
/// complement, which in two's complement is `-1 - x`) literal.
pub open spec fn spec_not(x: ExprV) -> Option<ExprV> {
    match x {
        ExprV::Literal(LitV::Bool(b)) => Some(ExprV::Literal(LitV::Bool(!b))),
        ExprV::Literal(LitV::Integer(i)) => Some(ExprV::Literal(LitV::Integer((-1 - i) as i64))),
        _ => None,
    }
}

/// An operator node over already folded operands: one literal where both
/// are literals and the operation folds, the node itself otherwise.
pub open spec fn spec_binary(l: ExprV, op: BinOp, r: ExprV, fl: FloatSem) -> ExprV {
    let node = ExprV::BinaryOp(Box::new(l), op, Box::new(r));
    match (l, r) {
        (ExprV::Literal(a), ExprV::Literal(b)) => match spec_simplify(a, op, b, fl) {
            Some(c) => ExprV::Literal(c),
            None => node,
        },
        _ => node,
    }
}

pub open spec fn folded_expr(e: ExprV, fl: FloatSem) -> ExprV
    decreases e,
{
    match e {
        ExprV::Literal(l) => ExprV::Literal(folded_lit(l, fl)),
        ExprV::MemberAccess(b, n) => ExprV::MemberAccess(Box::new(folded_expr(*b, fl)), n),
        ExprV::IndexAccess(b, args) => ExprV::IndexAccess(Box::new(folded_expr(*b, fl)), folded_exprs(args, fl)),
        ExprV::FunctionCall(b, args) => ExprV::FunctionCall(Box::new(folded_expr(*b, fl)), folded_exprs(args, fl)),
        ExprV::ObjectConstructor(n, fields) => ExprV::ObjectConstructor(n, folded_fields(fields, fl)),
        ExprV::BinaryOp(l, op, r) => spec_binary(folded_expr(*l, fl), op, folded_expr(*r, fl), fl),
        ExprV::Negate(b) => {
            let x = folded_expr(*b, fl);
            match spec_negate(x, fl) {
                Some(y) => y,
                None => ExprV::Negate(Box::new(x)),
            }
        },
        ExprV::Not(b) => {
            let x = folded_expr(*b, fl);
            match spec_not(x) {
                Some(y) => y,
                None => ExprV::Not(Box::new(x)),
            }
        },
        ExprV::Try(b) => ExprV::Try(Box::new(folded_expr(*b, fl))),
        ExprV::Lambda(p, c, m, body) => ExprV::Lambda(p, c, m, folded_block(body, fl)),
        _ => e,
    }
}

pub open spec fn folded_exprs(s: Seq<ExprV>, fl: FloatSem) -> Seq<ExprV>
    decreases s,
{
    Seq::new(s.len(), |i: int| if 0 <= i < s.len() { folded_expr(s[i], fl) } else { arbitrary() })
}

pub open spec fn folded_fields(s: Seq<(String, ExprV)>, fl: FloatSem) -> Seq<(String, ExprV)>
    decreases s,
{
    Seq::new(s.len(), |i: int| if 0 <= i < s.len() { (s[i].0, folded_expr(s[i].1, fl)) } else { arbitrary() })
}

pub open spec fn folded_lit(l: LitV, fl: FloatSem) -> LitV
    decreases l,
{
    match l {
        LitV::Object(fields) => LitV::Object(folded_fields(fields, fl)),
        LitV::List(v) => LitV::List(folded_exprs(v, fl)),
        LitV::Splat(x, n) => LitV::Splat(Box::new(folded_expr(*x, fl)), Box::new(folded_expr(*n, fl))),
        LitV::Simd(v, t) => LitV::Simd(folded_exprs(v, fl), t),
        LitV::SimdSplat(x, t) => LitV::SimdSplat(Box::new(folded_expr(*x, fl)), t),
        _ => l,
    }
}

pub open spec fn folded_block(b: Seq<StmtV>, fl: FloatSem) -> Seq<StmtV>
    decreases b,
{
    Seq::new(b.len(), |i: int| if 0 <= i < b.len() { folded_stmt(b[i], fl) } else { arbitrary() })
}

pub open spec fn folded_stmt(s: StmtV, fl: FloatSem) -> StmtV
    decreases s,
{
    match s {
        StmtV::Use(e) => StmtV::Use(folded_expr(e, fl)),
        StmtV::Expression(e) => StmtV::Expression(folded_expr(e, fl)),
        StmtV::Declaration(n, ns, init) => StmtV::Declaration(
            n,
            ns,
            match init {
                Some(e) => Some(folded_expr(e, fl)),
                None => None,
            },
        ),
        StmtV::Assignment(l, extra, op, r) => StmtV::Assignment(
            folded_expr(l, fl),
            folded_exprs(extra, fl),
            op,
            folded_expr(r, fl),
        ),
        StmtV::IfElse(c, t, e) => StmtV::IfElse(
            folded_expr(c, fl),
            folded_block(t, fl),
            match e {
                Some(b) => Some(folded_block(b, fl)),
                None => None,
            },
        ),
        StmtV::Loop(l, b) => StmtV::Loop(l, folded_block(b, fl)),
        StmtV::ForLoop(l, bs, it, b) => StmtV::ForLoop(l, bs, folded_expr(it, fl), folded_block(b, fl)),
        StmtV::WhileLoop(l, c, b) => StmtV::WhileLoop(l, folded_expr(c, fl), folded_block(b, fl)),
        StmtV::Return(v) => StmtV::Return(folded_exprs(v, fl)),
        StmtV::Throw(e) => StmtV::Throw(folded_expr(e, fl)),
        _ => s,
    }
}

pub open spec fn folded_function(f: FunctionV, fl: FloatSem) -> FunctionV {
    FunctionV { body: folded_block(f.body, fl), ..f }
}

pub open spec fn folded_functions(s: Seq<FunctionV>, fl: FloatSem) -> Seq<FunctionV> {
    Seq::new(s.len(), |i: int| folded_function(s[i], fl))
}

pub open spec fn folded_item(i: ItemV, fl: FloatSem) -> ItemV
    decreases i,
{
    match i {
        ItemV::Use(e) => ItemV::Use(folded_expr(e, fl)),
        ItemV::Module(m) => ItemV::Module(folded_module(m, fl)),
        ItemV::TypeImpl(a, n, iface, methods) => ItemV::TypeImpl(a, n, iface, folded_functions(methods, fl)),
        ItemV::Function(a, f) => ItemV::Function(a, folded_function(f, fl)),
        ItemV::Const(a, n, e) => ItemV::Const(a, n, folded_expr(e, fl)),
        _ => i,
    }
}

pub open spec fn folded_items(s: Seq<ItemV>, fl: FloatSem) -> Seq<ItemV>
    decreases s,
{
    Seq::new(s.len(), |i: int| if 0 <= i < s.len() { folded_item(s[i], fl) } else { arbitrary() })
}

pub open spec fn folded_module(m: ModuleV, fl: FloatSem) -> ModuleV
    decreases m,
{
    match m {
        ModuleV::Root(items) => ModuleV::Root(folded_items(items, fl)),
        ModuleV::Inline(n, items) => ModuleV::Inline(n, folded_items(items, fl)),
        ModuleV::Extern(n) => ModuleV::Extern(n),
    }
}

// The fold, carried out. Each function takes its subtree by value and
// returns it folded; the two public entry points fold in place.

proof fn lemma_literal_view(l: Literal)
    ensures
        expr_view(Expression::Literal(l)) == ExprV::Literal(lit_view(l)),
{
}

fn apply_negate<F: Fn(FloatCalc) -> FloatResult>(rhs: &Expression, f: &F) -> (r: Option<Expression>)
    requires
        float_ops_ok(f),
    ensures
        match r {
            Some(x) => spec_negate(expr_view(*rhs), float_sem(f)) == Some(expr_view(x)),
            None => spec_negate(expr_view(*rhs), float_sem(f)) is None,
        },
{
    let lit = match rhs {
        Expression::Literal(lit) => lit,
        _ => return None,
    };
    proof {
        lemma_literal_view(*lit);
    }
    let r = match lit {
        Literal::Integer(i) => {
            if *i == i64::MIN {
                return None;
            }
            Literal::Integer(-*i)
        },
        Literal::Float(b) => float_calc(f, FloatCalc::Negate(*b)),
        _ => return None,
    };
    proof {
        lemma_literal_view(r);
    }
    Some(Expression::Literal(r))
}

fn apply_not(rhs: &Expression) -> (r: Option<Expression>)
    ensures
        match r {
            Some(x) => spec_not(expr_view(*rhs)) == Some(expr_view(x)),
            None => spec_not(expr_view(*rhs)) is None,
        },
{
    let lit = match rhs {
        Expression::Literal(lit) => lit,
        _ => return None,
    };
    proof {
        lemma_literal_view(*lit);
    }
    let r = match lit {
        Literal::Bool(b) => Literal::Bool(!*b),
        Literal::Integer(i) => {
            let x = *i;
            let c = !x;
            assert(c == -1 - x) by (bit_vector)
                requires
                    c == !x,
            ;
            Literal::Integer(c)
        },
        _ => return None,
    };
    proof {
        lemma_literal_view(r);
    }
    Some(Expression::Literal(r))
}

fn fold_binary<F: Fn(FloatCalc) -> FloatResult>(lhs: Expression, op: BinOp, rhs: Expression, f: &F) -> (r: Expression)
    requires
        float_ops_ok(f),
    ensures
        expr_view(r) == spec_binary(expr_view(lhs), op, expr_view(rhs), float_sem(f)),
{
    let simplified = match (&lhs, &rhs) {
        (Expression::Literal(a), Expression::Literal(b)) => simplify_binary(a, op, b, f),
        _ => None,
    };
    match simplified {
        Some(lit) => Expression::Literal(lit),
        None => Expression::BinaryOp(Box::new(lhs), op, Box::new(rhs)),
    }
}

fn fold_expr<F: Fn(FloatCalc) -> FloatResult>(expr: Expression, f: &F) -> (r: Expression)
    requires
        float_ops_ok(f),
    ensures
        expr_view(r) == folded_expr(expr_view(expr), float_sem(f)),
    decreases expr,
{
    match expr {
        Expression::Literal(lit) => Expression::Literal(fold_literal(lit, f)),
        Expression::MemberAccess(lhs, name) => Expression::MemberAccess(Box::new(fold_expr(*lhs, f)), name),
        Expression::IndexAccess(lhs, exprs) => {
            let lhs = fold_expr(*lhs, f);
            Expression::IndexAccess(Box::new(lhs), fold_all(exprs, f))
        },
        Expression::FunctionCall(lhs, exprs) => {
            let lhs = fold_expr(*lhs, f);
            Expression::FunctionCall(Box::new(lhs), fold_all(exprs, f))
        },
        Expression::ObjectConstructor(name, obj) => Expression::ObjectConstructor(name, fold_obj_literal(obj, f)),
        Expression::BinaryOp(lhs, op, rhs) => {
            let lhs = fold_expr(*lhs, f);
            let rhs = fold_expr(*rhs, f);
            fold_binary(lhs, op, rhs, f)
        },
        Expression::Negate(rhs) => {
            let rhs = fold_expr(*rhs, f);
            match apply_negate(&rhs, f) {
                Some(x) => x,
                None => Expression::Negate(Box::new(rhs)),
            }
        },
        Expression::Not(rhs) => {
            let rhs = fold_expr(*rhs, f);
            match apply_not(&rhs) {
                Some(x) => x,
                None => Expression::Not(Box::new(rhs)),
            }
        },
        Expression::Try(lhs) => Expression::Try(Box::new(fold_expr(*lhs, f))),
        Expression::Lambda(lambda) => {
            let lambda = *lambda;
            let body = fold_block(lambda.body, f);
            Expression::Lambda(Box::new(Lambda { body, ..lambda }))
        },
        Expression::Nil => Expression::Nil,
        Expression::Identifier(name) => Expression::Identifier(name),
    }
}

fn fold_all<F: Fn(FloatCalc) -> FloatResult>(exprs: Vec<Expression>, f: &F) -> (r: Vec<Expression>)
    requires
        float_ops_ok(f),
    ensures
        exprs_view(r) == folded_exprs(exprs_view(exprs), float_sem(f)),
    decreases exprs,
{
    let ghost orig = exprs@;
    let mut v = exprs;
    let n = v.len();
    let mut i: usize = 0;
    while i < n
        invariant
            float_ops_ok(f),
            orig == exprs@,
            v@.len() == n == orig.len(),
            0 <= i <= n,
            forall|j: int| i <= j < n ==> v@[j] == orig[j],
            forall|j: int| 0 <= j < i ==> expr_view(#[trigger] v@[j]) == folded_expr(expr_view(orig[j]), float_sem(f)),
        decreases n - i,
    {
        let mut e = Expression::Nil;
        std::mem::swap(&mut e, &mut v[i]);
        proof {
            assert(decreases_to!(exprs => exprs@));
            assert(decreases_to!(exprs@ => exprs@[i as int]));
        }
        let e = fold_expr(e, f);
        v.set(i, e);
        i += 1;
    }
    assert(exprs_view(v) =~= folded_exprs(exprs_view(exprs), float_sem(f)));
    v
}

fn fold_obj_literal<F: Fn(FloatCalc) -> FloatResult>(obj: ObjectLiteral, f: &F) -> (r: ObjectLiteral)
    requires
        float_ops_ok(f),
    ensures
        fields_view(r) == folded_fields(fields_view(obj), float_sem(f)),
    decreases obj,
{
    let ghost orig = obj@;
    let mut v = obj;
    let n = v.len();
    let mut i: usize = 0;
    while i < n
        invariant
            float_ops_ok(f),
            orig == obj@,
            v@.len() == n == orig.len(),
            0 <= i <= n,
            forall|j: int| i <= j < n ==> v@[j] == orig[j],
            forall|j: int| 0 <= j < i ==> (#[trigger] v@[j]).0 == orig[j].0
                && expr_view(v@[j].1) == folded_expr(expr_view(orig[j].1), float_sem(f)),
        decreases n - i,
    {
        let mut entry = (String::new(), Expression::Nil);
        std::mem::swap(&mut entry, &mut v[i]);
        let (key, e) = entry;
        proof {
            assert(decreases_to!(obj => obj@));
            assert(decreases_to!(obj@ => obj@[i as int]));
            assert(decreases_to!(obj@[i as int] => obj@[i as int].1));
        }
        let e = fold_expr(e, f);
        v.set(i, (key, e));
        i += 1;
    }
    assert(fields_view(v) =~= folded_fields(fields_view(obj), float_sem(f)));
    v
}

fn fold_literal<F: Fn(FloatCalc) -> FloatResult>(lit: Literal, f: &F) -> (r: Literal)
    requires
        float_ops_ok(f),
    ensures
        lit_view(r) == folded_lit(lit_view(lit), float_sem(f)),
    decreases lit,
{
    match lit {
        Literal::Array(arr) => Literal::Array(fold_arr_literal(arr, f)),
        Literal::Object(obj) => Literal::Object(fold_obj_literal(obj, f)),
        Literal::Simd(arr, t) => Literal::Simd(fold_all(arr, f), t),
        Literal::SimdSplat(e, t) => Literal::SimdSplat(Box::new(fold_expr(*e, f)), t),
        Literal::Integer(i) => Literal::Integer(i),
        Literal::Float(b) => Literal::Float(b),
        Literal::Bool(b) => Literal::Bool(b),
        Literal::String(s) => Literal::String(s),
    }
}

fn fold_arr_literal<F: Fn(FloatCalc) -> FloatResult>(arr: ArrayLiteral, f: &F) -> (r: ArrayLiteral)
    requires
        float_ops_ok(f),
    ensures
        lit_view(Literal::Array(r)) == folded_lit(lit_view(Literal::Array(arr)), float_sem(f)),
    decreases arr,
{
    match arr {
        ArrayLiteral::List(exprs) => ArrayLiteral::List(fold_all(exprs, f)),
        ArrayLiteral::Splat(val, count) => {
            let val = fold_expr(*val, f);
            let count = fold_expr(*count, f);
            ArrayLiteral::Splat(Box::new(val), Box::new(count))
        },
    }
}

fn fold_block<F: Fn(FloatCalc) -> FloatResult>(block: Block, f: &F) -> (r: Block)
    requires
        float_ops_ok(f),
    ensures
        block_view(r) == folded_block(block_view(block), float_sem(f)),
    decreases block,
{
    let ghost orig = block.statements@;
    let mut v = block.statements;
    let n = v.len();
    let mut i: usize = 0;
    while i < n
        invariant
            float_ops_ok(f),
            orig == block.statements@,
            v@.len() == n == orig.len(),
            0 <= i <= n,
            forall|j: int| i <= j < n ==> v@[j] == orig[j],
            forall|j: int| 0 <= j < i ==> stmt_view(#[trigger] v@[j]) == folded_stmt(stmt_view(orig[j]), float_sem(f)),
        decreases n - i,
    {
        let mut s = Statement::Break(None);
        std::mem::swap(&mut s, &mut v[i]);
        proof {
            assert(decreases_to!(block => block.statements));
            assert(decreases_to!(block.statements => block.statements@));
            assert(decreases_to!(block.statements@ => block.statements@[i as int]));
        }
        let s = fold_statement(s, f);
        v.set(i, s);
        i += 1;
    }
    let r = Block { statements: v };
    assert(block_view(r) =~= folded_block(block_view(block), float_sem(f)));
    r
}

fn fold_statement<F: Fn(FloatCalc) -> FloatResult>(stmnt: Statement, f: &F) -> (r: Statement)
    requires
        float_ops_ok(f),
    ensures
        stmt_view(r) == folded_stmt(stmt_view(stmnt), float_sem(f)),
    decreases stmnt,
{
    match stmnt {
        Statement::Use(expr) => Statement::Use(fold_expr(expr, f)),
        Statement::Expression(expr) => Statement::Expression(fold_expr(expr, f)),
        Statement::Declaration(name, names, init) => {
            let init = match init {
                Some(expr) => Some(fold_expr(expr, f)),
                None => None,
            };
            Statement::Declaration(name, names, init)
        },
        Statement::Assignment(lhs, extra, op, rhs) => {
            let lhs = fold_expr(lhs, f);
            let extra = fold_all(extra, f);
            let rhs = fold_expr(rhs, f);
            Statement::Assignment(lhs, extra, op, rhs)
        },
        Statement::IfElse(ie) => {
            let condition = fold_expr(*ie.condition, f);
            let if_block = fold_block(*ie.if_block, f);
            let else_block = match ie.else_block {
                Some(b) => Some(Box::new(fold_block(*b, f))),
                None => None,
            };
            Statement::IfElse(IfElse { condition: Box::new(condition), if_block: Box::new(if_block), else_block })
        },
        Statement::Loop(l) => Statement::Loop(Loop { label: l.label, block: fold_block(l.block, f) }),
        Statement::ForLoop(l) => {
            let iterator = fold_expr(l.iterator, f);
            let block = fold_block(l.block, f);
            Statement::ForLoop(ForLoop { label: l.label, bindings: l.bindings, iterator, block })
        },
        Statement::WhileLoop(l) => {
            let condition = fold_expr(l.condition, f);
            let block = fold_block(l.block, f);
            Statement::WhileLoop(WhileLoop { label: l.label, condition, block })
        },
        Statement::Return(exprs) => Statement::Return(fold_all(exprs, f)),
        Statement::Throw(expr) => Statement::Throw(fold_expr(expr, f)),
        Statement::Break(l) => Statement::Break(l),
        Statement::Continue(l) => Statement::Continue(l),
    }
}

/// Folds every expression reachable from `expr`, children before parents,
/// and replaces it with the result: an operator over literal operands
/// becomes one literal where the operation folds (see `spec_simplify`), and
/// is left in place otherwise. Floating-point arithmetic is computed by `f`.
pub fn fold<F: Fn(FloatCalc) -> FloatResult>(expr: &mut Expression, f: &F)
    requires
        float_ops_ok(f),
    ensures
        expr_view(*final(expr)) == folded_expr(expr_view(*old(expr)), float_sem(f)),
{
    let mut e = Expression::Nil;
    std::mem::swap(&mut e, expr);
    *expr = fold_expr(e, f);
}

fn fold_func<F: Fn(FloatCalc) -> FloatResult>(func: Function, f: &F) -> (r: Function)
    requires
        float_ops_ok(f),
    ensures
        function_view(r) == folded_function(function_view(func), float_sem(f)),
{
    let body = fold_block(func.body, f);
    Function { body, ..func }
}

fn fold_impl<F: Fn(FloatCalc) -> FloatResult>(imp: TypeImpl, f: &F) -> (r: TypeImpl)
    requires
        float_ops_ok(f),
    ensures
        r.name == imp.name,
        r.interface == imp.interface,
        functions_view(r.methods) == folded_functions(functions_view(imp.methods), float_sem(f)),
{
    let ghost orig = imp.methods@;
    let mut v = imp.methods;
    let n = v.len();
    let mut i: usize = 0;
    while i < n
        invariant
            float_ops_ok(f),
            orig == imp.methods@,
            v@.len() == n == orig.len(),
            0 <= i <= n,
            forall|j: int| i <= j < n ==> v@[j] == orig[j],
            forall|j: int| 0 <= j < i ==> function_view(#[trigger] v@[j]) == folded_function(function_view(orig[j]), float_sem(f)),
        decreases n - i,
    {
        let mut func = Function {
            name: String::new(),
            parameters: Vec::new(),
            can_error: false,
            is_member: false,
            body: Block { statements: Vec::new() },
        };
        std::mem::swap(&mut func, &mut v[i]);
        let func = fold_func(func, f);
        v.set(i, func);
        i += 1;
    }
    assert(functions_view(v) =~= folded_functions(functions_view(imp.methods), float_sem(f)));
    TypeImpl { name: imp.name, interface: imp.interface, methods: v }
}

fn fold_item<F: Fn(FloatCalc) -> FloatResult>(item: Item, f: &F) -> (r: Item)
    requires
        float_ops_ok(f),
    ensures
        item_view(r) == folded_item(item_view(item), float_sem(f)),
    decreases item,
{
    match item {
        Item::Use(expr) => Item::Use(fold_expr(expr, f)),
        Item::Module(module) => Item::Module(fold_module_tree(module, f)),
        Item::TypeImpl(attrs, imp) => Item::TypeImpl(attrs, fold_impl(imp, f)),
        Item::Function(attrs, func) => Item::Function(attrs, fold_func(func, f)),
        Item::Const(attrs, name, expr) => Item::Const(attrs, name, fold_expr(expr, f)),
        other => other,
    }
}

fn fold_items<F: Fn(FloatCalc) -> FloatResult>(items: Vec<Item>, f: &F) -> (r: Vec<Item>)
    requires
        float_ops_ok(f),
    ensures
        items_view(r) == folded_items(items_view(items), float_sem(f)),
    decreases items,
{
    let ghost orig = items@;
    let mut v = items;
    let n = v.len();
    let mut i: usize = 0;
    while i < n
        invariant
            float_ops_ok(f),
            orig == items@,
            v@.len() == n == orig.len(),
            0 <= i <= n,
            forall|j: int| i <= j < n ==> v@[j] == orig[j],
            forall|j: int| 0 <= j < i ==> item_view(#[trigger] v@[j]) == folded_item(item_view(orig[j]), float_sem(f)),
        decreases n - i,
    {
        let mut item = Item::Extern(String::new());
        std::mem::swap(&mut item, &mut v[i]);
        proof {
            assert(decreases_to!(items => items@));
            assert(decreases_to!(items@ => items@[i as int]));
        }
        let item = fold_item(item, f);
        v.set(i, item);
        i += 1;
    }
    assert(items_view(v) =~= folded_items(items_view(items), float_sem(f)));
    v
}

fn fold_module_tree<F: Fn(FloatCalc) -> FloatResult>(root: Module, f: &F) -> (r: Module)
    requires
        float_ops_ok(f),
    ensures
        module_view(r) == folded_module(module_view(root), float_sem(f)),
    decreases root,
{
    match root {
        Module::Root { items } => Module::Root { items: fold_items(items, f) },
        Module::Inline { name, items } => Module::Inline { name, items: fold_items(items, f) },
        Module::Extern { name } => Module::Extern { name },
    }
}

/// Folds, in place, every expression reachable from the module: items,
/// function and method bodies, statements, and the elements of literals.
/// Floating-point arithmetic is computed by `f`.
pub fn fold_module<F: Fn(FloatCalc) -> FloatResult>(root: &mut Module, f: &F)
    requires
        float_ops_ok(f),
    ensures
        module_view(*final(root)) == folded_module(module_view(*old(root)), float_sem(f)),
{
    let mut m = Module::Extern { name: String::new() };
    std::mem::swap(&mut m, root);
    *root = fold_module_tree(m, f);
}

// Laws of folding.

pub open spec fn is_scalar(l: LitV) -> bool {
    l is Integer || l is Float || l is Bool
}

proof fn lemma_simplify_scalar(l: LitV, op: BinOp, r: LitV, fl: FloatSem)
    ensures
        spec_simplify(l, op, r, fl) matches Some(c) ==> is_scalar(c),
{
}

/// An operator applied to two literals folds to the literal that the
/// coercion rules give for them, wherever they give one, and is otherwise
/// left as an operator node over the two (folded) literals. Only integers,
/// doubles and booleans ever fold, and folding leaves those unchanged.
pub proof fn lemma_fold_literal_operands(a: LitV, op: BinOp, b: LitV, fl: FloatSem)
    ensures
        (spec_simplify(a, op, b, fl) is Some) ==> is_scalar(a) && is_scalar(b),
        is_scalar(a) ==> folded_lit(a, fl) == a,
        folded_expr(ExprV::BinaryOp(Box::new(ExprV::Literal(a)), op, Box::new(ExprV::Literal(b))), fl) == ({
            let (x, y) = (folded_lit(a, fl), folded_lit(b, fl));
            match spec_simplify(x, op, y, fl) {
                Some(c) => ExprV::Literal(c),
                None => ExprV::BinaryOp(Box::new(ExprV::Literal(x)), op, Box::new(ExprV::Literal(y))),
            }
        }),
{
    assert(folded_expr(ExprV::Literal(a), fl) == ExprV::Literal(folded_lit(a, fl)));
    assert(folded_expr(ExprV::Literal(b), fl) == ExprV::Literal(folded_lit(b, fl)));
}

/// Folding an object literal keeps its keys, each in its place, so keys
/// that were unique and ascending stay so.
pub proof fn lemma_fold_keeps_keys(fields: Seq<(String, ExprV)>, fl: FloatSem)
    ensures
        folded_fields(fields, fl).len() == fields.len(),
        forall|i: int| 0 <= i < fields.len() ==> (#[trigger] folded_fields(fields, fl)[i]).0 == fields[i].0,
        field_keys_ascending(folded_fields(fields, fl)) == field_keys_ascending(fields),
{
    let f = folded_fields(fields, fl);
    assert forall|i: int| 0 <= i < fields.len() implies (#[trigger] f[i]).0 == fields[i].0 by {}
    if field_keys_ascending(fields) {
        assert forall|i: int, j: int| 0 <= i < j < f.len() implies text_less(#[trigger] f[i].0@, #[trigger] f[j].0@) by {
            assert(f[i].0 == fields[i].0 && f[j].0 == fields[j].0);
        }
    }
    if field_keys_ascending(f) {
        assert forall|i: int, j: int| 0 <= i < j < fields.len() implies text_less(#[trigger] fields[i].0@, #[trigger] fields[j].0@) by {
            assert(f[i].0 == fields[i].0 && f[j].0 == fields[j].0);
        }
    }
}

/// Membership tests, both range operators and the combined division and
/// remainder are never folded: the node stays, over its folded operands.
pub proof fn lemma_unfolded_operators(l: ExprV, op: BinOp, r: ExprV, fl: FloatSem)
    requires
        op == BinOp::Implements || op == BinOp::RangeExclusive || op == BinOp::RangeInclusive
            || op == BinOp::DivRem,
    ensures
        folded_expr(ExprV::BinaryOp(Box::new(l), op, Box::new(r)), fl)
            == ExprV::BinaryOp(Box::new(folded_expr(l, fl)), op, Box::new(folded_expr(r, fl))),
{
}

/// Folding a folded expression changes nothing.
pub proof fn lemma_fold_expr_idempotent(e: ExprV, fl: FloatSem)
    ensures
        folded_expr(folded_expr(e, fl), fl) == folded_expr(e, fl),
    decreases e,
{
    match e {
        ExprV::Literal(l) => {
            lemma_fold_lit_idempotent(l, fl);
        },
        ExprV::MemberAccess(b, n) => {
            lemma_fold_expr_idempotent(*b, fl);
        },
        ExprV::IndexAccess(b, args) => {
            lemma_fold_expr_idempotent(*b, fl);
            lemma_fold_exprs_idempotent(args, fl);
        },
        ExprV::FunctionCall(b, args) => {
            lemma_fold_expr_idempotent(*b, fl);
            lemma_fold_exprs_idempotent(args, fl);
        },
        ExprV::ObjectConstructor(n, fields) => {
            lemma_fold_fields_idempotent(fields, fl);
        },
        ExprV::BinaryOp(l, op, r) => {
            lemma_fold_expr_idempotent(*l, fl);
            lemma_fold_expr_idempotent(*r, fl);
            let l2 = folded_expr(*l, fl);
            let r2 = folded_expr(*r, fl);
            if let (ExprV::Literal(a), ExprV::Literal(b)) = (l2, r2) {
                lemma_simplify_scalar(a, op, b, fl);
                if let Some(c) = spec_simplify(a, op, b, fl) {
                    assert(folded_lit(c, fl) == c);
                    assert(folded_expr(ExprV::Literal(c), fl) == ExprV::Literal(c));
                }
            }
        },
        ExprV::Negate(b) => {
            lemma_fold_expr_idempotent(*b, fl);
            if let Some(y) = spec_negate(folded_expr(*b, fl), fl) {
                assert(y->Literal_0 is Integer || y->Literal_0 is Float || y->Literal_0 is Bool);
                assert(folded_lit(y->Literal_0, fl) == y->Literal_0);
                assert(folded_expr(y, fl) == y);
            }
        },
        ExprV::Not(b) => {
            lemma_fold_expr_idempotent(*b, fl);
            if let Some(y) = spec_not(folded_expr(*b, fl)) {
                assert(folded_lit(y->Literal_0, fl) == y->Literal_0);
                assert(folded_expr(y, fl) == y);
            }
        },
        ExprV::Try(b) => {
            lemma_fold_expr_idempotent(*b, fl);
        },
        ExprV::Lambda(p, c, m, body) => {
            lemma_fold_block_idempotent(body, fl);
        },
        _ => {},
    }
}

pub proof fn lemma_fold_exprs_idempotent(s: Seq<ExprV>, fl: FloatSem)
    ensures
        folded_exprs(folded_exprs(s, fl), fl) == folded_exprs(s, fl),
    decreases s,
{
    assert forall|i: int| 0 <= i < s.len() implies
        folded_expr(#[trigger] folded_exprs(s, fl)[i], fl) == folded_exprs(s, fl)[i] by {
        lemma_fold_expr_idempotent(s[i], fl);
    }
    assert(folded_exprs(folded_exprs(s, fl), fl) =~= folded_exprs(s, fl));
}

pub proof fn lemma_fold_fields_idempotent(s: Seq<(String, ExprV)>, fl: FloatSem)
    ensures
        folded_fields(folded_fields(s, fl), fl) == folded_fields(s, fl),
    decreases s,
{
    assert forall|i: int| 0 <= i < s.len() implies
        folded_expr(#[trigger] folded_fields(s, fl)[i].1, fl) == folded_fields(s, fl)[i].1 by {
        lemma_fold_expr_idempotent(s[i].1, fl);
    }
    assert(folded_fields(folded_fields(s, fl), fl) =~= folded_fields(s, fl));
}

pub proof fn lemma_fold_lit_idempotent(l: LitV, fl: FloatSem)
    ensures
        folded_lit(folded_lit(l, fl), fl) == folded_lit(l, fl),
    decreases l,
{
    match l {
        LitV::Object(fields) => lemma_fold_fields_idempotent(fields, fl),
        LitV::List(v) => lemma_fold_exprs_idempotent(v, fl),
        LitV::Splat(x, n) => {
            lemma_fold_expr_idempotent(*x, fl);
            lemma_fold_expr_idempotent(*n, fl);
        },
        LitV::Simd(v, t) => lemma_fold_exprs_idempotent(v, fl),
        LitV::SimdSplat(x, t) => lemma_fold_expr_idempotent(*x, fl),
        _ => {},
    }
}

pub proof fn lemma_fold_block_idempotent(b: Seq<StmtV>, fl: FloatSem)
    ensures
        folded_block(folded_block(b, fl), fl) == folded_block(b, fl),
    decreases b,
{
    assert forall|i: int| 0 <= i < b.len() implies
        folded_stmt(#[trigger] folded_block(b, fl)[i], fl) == folded_block(b, fl)[i] by {
        lemma_fold_stmt_idempotent(b[i], fl);
    }
    assert(folded_block(folded_block(b, fl), fl) =~= folded_block(b, fl));
}

pub proof fn lemma_fold_stmt_idempotent(s: StmtV, fl: FloatSem)
    ensures
        folded_stmt(folded_stmt(s, fl), fl) == folded_stmt(s, fl),
    decreases s,
{
    match s {
        StmtV::Use(e) => lemma_fold_expr_idempotent(e, fl),
        StmtV::Expression(e) => lemma_fold_expr_idempotent(e, fl),
        StmtV::Declaration(n, ns, init) => {
            if let Some(e) = init {
                lemma_fold_expr_idempotent(e, fl);
            }
        },
        StmtV::Assignment(l, extra, op, r) => {
            lemma_fold_expr_idempotent(l, fl);
            lemma_fold_exprs_idempotent(extra, fl);
            lemma_fold_expr_idempotent(r, fl);
        },
        StmtV::IfElse(c, t, e) => {
            lemma_fold_expr_idempotent(c, fl);
            lemma_fold_block_idempotent(t, fl);
            if let Some(b) = e {
                lemma_fold_block_idempotent(b, fl);
            }
        },
        StmtV::Loop(l, b) => lemma_fold_block_idempotent(b, fl),
        StmtV::ForLoop(l, bs, it, b) => {
            lemma_fold_expr_idempotent(it, fl);
            lemma_fold_block_idempotent(b, fl);
        },
        StmtV::WhileLoop(l, c, b) => {
            lemma_fold_expr_idempotent(c, fl);
            lemma_fold_block_idempotent(b, fl);
        },
        StmtV::Return(v) => lemma_fold_exprs_idempotent(v, fl),
        StmtV::Throw(e) => lemma_fold_expr_idempotent(e, fl),
        _ => {},
    }
}

pub proof fn lemma_fold_item_idempotent(i: ItemV, fl: FloatSem)
    ensures
        folded_item(folded_item(i, fl), fl) == folded_item(i, fl),
    decreases i,
{
    match i {
        ItemV::Use(e) => lemma_fold_expr_idempotent(e, fl),
        ItemV::Module(m) => lemma_fold_module_idempotent(m, fl),
        ItemV::TypeImpl(a, n, iface, methods) => {
            assert forall|k: int| 0 <= k < methods.len() implies
                folded_function(#[trigger] folded_functions(methods, fl)[k], fl) == folded_functions(methods, fl)[k] by {
                lemma_fold_block_idempotent(methods[k].body, fl);
            }
            assert(folded_functions(folded_functions(methods, fl), fl) =~= folded_functions(methods, fl));
        },
        ItemV::Function(a, f) => lemma_fold_block_idempotent(f.body, fl),
        ItemV::Const(a, n, e) => lemma_fold_expr_idempotent(e, fl),
        _ => {},
    }
}

pub proof fn lemma_fold_items_idempotent(s: Seq<ItemV>, fl: FloatSem)
    ensures
        folded_items(folded_items(s, fl), fl) == folded_items(s, fl),
    decreases s,
{
    assert forall|i: int| 0 <= i < s.len() implies
        folded_item(#[trigger] folded_items(s, fl)[i], fl) == folded_items(s, fl)[i] by {
        lemma_fold_item_idempotent(s[i], fl);
    }
    assert(folded_items(folded_items(s, fl), fl) =~= folded_items(s, fl));
}

/// Folding is idempotent: folding a folded module changes nothing.
pub proof fn lemma_fold_module_idempotent(m: ModuleV, fl: FloatSem)
    ensures
        folded_module(folded_module(m, fl), fl) == folded_module(m, fl),
    decreases m,
{
    match m {
        ModuleV::Root(items) => lemma_fold_items_idempotent(items, fl),
        ModuleV::Inline(n, items) => lemma_fold_items_idempotent(items, fl),
        ModuleV::Extern(n) => {},
    }
}

} // verus!
