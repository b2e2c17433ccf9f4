use seal_lang::ast::constant_folding::{fold, fold_module, FloatCalc, FloatResult, Number};
use seal_lang::ast::{
    expr_lambda, lambda, ArrayLiteral, BinOp, Block, Expression, Function, Item, Literal, Module,
    Statement,
};

fn value(n: Number) -> f64 {
    match n {
        Number::Int(i) => i as f64,
        Number::Float(b) => f64::from_bits(b),
    }
}

fn float_ops(c: FloatCalc) -> FloatResult {
    match c {
        FloatCalc::Negate(b) => FloatResult::Float((-f64::from_bits(b)).to_bits()),
        FloatCalc::Binary(op, l, r) => {
            let (x, y) = (value(l), value(r));
            let num = |v: f64| FloatResult::Float(if v.is_nan() { f64::NAN } else { v }.to_bits());
            match op {
                BinOp::Add => num(x + y),
                BinOp::Sub => num(x - y),
                BinOp::Mul => num(x * y),
                BinOp::Div => num(x / y),
                BinOp::Rem | BinOp::Mod => num(x - y * (x / y).round()),
                BinOp::Equal => FloatResult::Bool(x == y),
                BinOp::NotEqual => FloatResult::Bool(x != y),
                BinOp::LessThan => FloatResult::Bool(x < y),
                BinOp::LessOrEqual => FloatResult::Bool(x <= y),
                BinOp::GreaterThan => FloatResult::Bool(x > y),
                BinOp::GreaterOrEqual => FloatResult::Bool(x >= y),
                _ => num(f64::NAN),
            }
        }
    }
}

fn integer(i: i64) -> Expression {
    Expression::Literal(Literal::Integer(i))
}

fn float(f: f64) -> Expression {
    Expression::Literal(Literal::Float(f.to_bits()))
}

fn boolean(b: bool) -> Expression {
    Expression::Literal(Literal::Bool(b))
}

fn bin(l: Expression, op: BinOp, r: Expression) -> Expression {
    Expression::BinaryOp(Box::new(l), op, Box::new(r))
}

fn folded(mut e: Expression) -> Expression {
    fold(&mut e, &float_ops);
    e
}

fn as_int(e: &Expression) -> Option<i64> {
    match e {
        Expression::Literal(Literal::Integer(i)) => Some(*i),
        _ => None,
    }
}

fn as_float(e: &Expression) -> Option<f64> {
    match e {
        Expression::Literal(Literal::Float(b)) => Some(f64::from_bits(*b)),
        _ => None,
    }
}

fn as_bool(e: &Expression) -> Option<bool> {
    match e {
        Expression::Literal(Literal::Bool(b)) => Some(*b),
        _ => None,
    }
}

#[test]
fn int_plus_float_promotes() {
    assert_eq!(as_float(&folded(bin(integer(2), BinOp::Add, float(3.0)))), Some(5.0));
}

#[test]
fn integer_mod_is_floor_mod() {
    assert_eq!(as_int(&folded(bin(integer(7), BinOp::Mod, integer(-3)))), Some(-2));
    assert_eq!(as_int(&folded(bin(integer(-7), BinOp::Mod, integer(3)))), Some(2));
    assert_eq!(as_int(&folded(bin(integer(6), BinOp::Mod, integer(-3)))), Some(0));
}

#[test]
fn integer_rem_truncates() {
    assert_eq!(as_int(&folded(bin(integer(7), BinOp::Rem, integer(-3)))), Some(1));
    assert_eq!(as_int(&folded(bin(integer(-7), BinOp::Rem, integer(3)))), Some(-1));
    assert_eq!(as_int(&folded(bin(integer(-7), BinOp::Div, integer(2)))), Some(-3));
}

#[test]
fn float_rem_and_mod_round() {
    // 7 - 2 * round(3.5) = 7 - 8 = -1
    assert_eq!(as_float(&folded(bin(float(7.0), BinOp::Rem, integer(2)))), Some(-1.0));
    assert_eq!(as_float(&folded(bin(float(7.0), BinOp::Mod, integer(2)))), Some(-1.0));
}

#[test]
fn range_operators_never_fold() {
    let e = folded(bin(integer(1), BinOp::RangeInclusive, integer(5)));
    match e {
        Expression::BinaryOp(l, BinOp::RangeInclusive, r) => {
            assert_eq!(as_int(&l), Some(1));
            assert_eq!(as_int(&r), Some(5));
        }
        other => panic!("expected an operator node, got {:?}", other),
    }
    assert!(matches!(folded(bin(integer(1), BinOp::RangeExclusive, integer(5))), Expression::BinaryOp(..)));
    assert!(matches!(folded(bin(integer(7), BinOp::DivRem, integer(2))), Expression::BinaryOp(..)));
    assert!(matches!(folded(bin(integer(7), BinOp::Implements, integer(2))), Expression::BinaryOp(..)));
}

#[test]
fn nested_chain_folds_in_one_pass() {
    let e = bin(bin(integer(1), BinOp::Add, integer(2)), BinOp::Mul, bin(integer(10), BinOp::Sub, integer(7)));
    assert_eq!(as_int(&folded(e)), Some(9));
}

#[test]
fn fold_is_idempotent() {
    let e = bin(
        bin(integer(1), BinOp::Add, Expression::Identifier("x".to_string())),
        BinOp::LessThan,
        bin(float(2.5), BinOp::Mul, integer(2)),
    );
    let once = folded(e);
    let text = format!("{:?}", once);
    let twice = folded(once);
    assert_eq!(format!("{:?}", twice), text);
}

#[test]
fn comparisons_and_logic() {
    assert_eq!(as_bool(&folded(bin(integer(1), BinOp::LessThan, float(2.5)))), Some(true));
    assert_eq!(as_bool(&folded(bin(integer(3), BinOp::GreaterOrEqual, integer(4)))), Some(false));
    assert_eq!(as_bool(&folded(bin(boolean(true), BinOp::NotEqual, boolean(false)))), Some(true));
    assert_eq!(as_bool(&folded(bin(boolean(true), BinOp::LogicalAnd, boolean(false)))), Some(false));
    assert_eq!(as_bool(&folded(bin(float(1.0), BinOp::Equal, integer(1)))), Some(true));
    assert!(matches!(folded(bin(boolean(true), BinOp::LessThan, boolean(false))), Expression::BinaryOp(..)));
    assert!(matches!(folded(bin(integer(1), BinOp::LogicalOr, integer(0))), Expression::BinaryOp(..)));
}

#[test]
fn bitwise_and_shifts() {
    assert_eq!(as_int(&folded(bin(integer(6), BinOp::BitAnd, integer(3)))), Some(2));
    assert_eq!(as_int(&folded(bin(integer(6), BinOp::BitXor, integer(3)))), Some(5));
    assert_eq!(as_bool(&folded(bin(boolean(true), BinOp::BitXor, boolean(true)))), Some(false));
    assert_eq!(as_int(&folded(bin(integer(1), BinOp::LShiftLeft, integer(3)))), Some(8));
    assert_eq!(as_int(&folded(bin(integer(-8), BinOp::AShiftRight, integer(1)))), Some(-4));
    assert_eq!(as_int(&folded(bin(integer(-1), BinOp::LShiftRight, integer(60)))), Some(15));
    assert!(matches!(folded(bin(integer(1), BinOp::LShiftLeft, integer(64))), Expression::BinaryOp(..)));
    assert!(matches!(folded(bin(integer(1), BinOp::AShiftRight, integer(-1))), Expression::BinaryOp(..)));
}

#[test]
fn undefined_integer_operations_stay() {
    assert!(matches!(folded(bin(integer(i64::MAX), BinOp::Add, integer(1))), Expression::BinaryOp(..)));
    assert!(matches!(folded(bin(integer(1), BinOp::Div, integer(0))), Expression::BinaryOp(..)));
    assert!(matches!(folded(bin(integer(i64::MIN), BinOp::Rem, integer(-1))), Expression::BinaryOp(..)));
    assert!(matches!(folded(bin(integer(1), BinOp::Mod, integer(0))), Expression::BinaryOp(..)));
}

#[test]
fn unary_operators() {
    assert_eq!(as_int(&folded(Expression::Not(Box::new(integer(5))))), Some(-6));
    assert_eq!(as_bool(&folded(Expression::Not(Box::new(boolean(false))))), Some(true));
    assert_eq!(as_int(&folded(Expression::Negate(Box::new(integer(5))))), Some(-5));
    assert_eq!(as_float(&folded(Expression::Negate(Box::new(float(1.5))))), Some(-1.5));
    assert!(matches!(folded(Expression::Negate(Box::new(boolean(true)))), Expression::Negate(_)));
    assert!(matches!(folded(Expression::Negate(Box::new(integer(i64::MIN)))), Expression::Negate(_)));
    let s = Expression::Literal(Literal::String("s".to_string()));
    assert!(matches!(folded(Expression::Not(Box::new(s))), Expression::Not(_)));
}

#[test]
fn literal_elements_are_folded() {
    let arr = Expression::Literal(Literal::Array(ArrayLiteral::List(vec![bin(integer(1), BinOp::Add, integer(1))])));
    match folded(arr) {
        Expression::Literal(Literal::Array(ArrayLiteral::List(v))) => assert_eq!(as_int(&v[0]), Some(2)),
        other => panic!("{:?}", other),
    }
    let obj = Expression::Literal(Literal::Object(vec![("k".to_string(), bin(integer(2), BinOp::Mul, integer(4)))]));
    match folded(obj) {
        Expression::Literal(Literal::Object(v)) => {
            assert_eq!(v[0].0, "k");
            assert_eq!(as_int(&v[0].1), Some(8));
        }
        other => panic!("{:?}", other),
    }
    let splat = Expression::Literal(Literal::Array(ArrayLiteral::Splat(
        Box::new(bin(integer(1), BinOp::Sub, integer(1))),
        Box::new(bin(integer(2), BinOp::Add, integer(2))),
    )));
    match folded(splat) {
        Expression::Literal(Literal::Array(ArrayLiteral::Splat(v, n))) => {
            assert_eq!(as_int(&v), Some(0));
            assert_eq!(as_int(&n), Some(4));
        }
        other => panic!("{:?}", other),
    }
}

#[test]
fn module_function_bodies_are_folded() {
    let body = Block { statements: vec![Statement::Return(vec![bin(integer(20), BinOp::Div, integer(3))])] };
    let func = Function {
        name: "f".to_string(),
        parameters: vec![],
        can_error: false,
        is_member: false,
        body,
    };
    let mut module = Module::Root { items: vec![Item::Function(vec![], func)] };
    fold_module(&mut module, &float_ops);
    match module {
        Module::Root { items } => match &items[0] {
            Item::Function(_, f) => match &f.body.statements[0] {
                Statement::Return(v) => assert_eq!(as_int(&v[0]), Some(6)),
                other => panic!("{:?}", other),
            },
            other => panic!("{:?}", other),
        },
        other => panic!("{:?}", other),
    }
}

#[test]
fn lambda_with_self_is_member() {
    let e = lambda(vec!["self".to_string(), "x".to_string()], Some("err"), Block { statements: vec![] });
    match e {
        Expression::Lambda(l) => {
            assert!(l.is_member);
            assert!(l.can_error);
            assert_eq!(l.parameters, vec!["x".to_string()]);
        }
        other => panic!("{:?}", other),
    }
    let e = expr_lambda(vec!["y".to_string()], None, integer(3));
    match e {
        Expression::Lambda(l) => {
            assert!(!l.is_member);
            assert!(!l.can_error);
            assert_eq!(l.parameters, vec!["y".to_string()]);
            assert!(matches!(&l.body.statements[0], Statement::Return(v) if v.len() == 1));
        }
        other => panic!("{:?}", other),
    }
}
