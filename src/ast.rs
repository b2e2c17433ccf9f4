//! The syntax tree, and its view: the same tree with sequences in place of
//! vectors, over which the folder's contracts are stated.

use vstd::prelude::*;
use crate::lexer::keywords::text_less;

pub mod constant_folding;

verus! {

pub type Identifier = String;

pub type Label = String;

#[derive(Debug)]
pub enum Module {
    Root { items: Vec<Item> },
    Inline { name: Identifier, items: Vec<Item> },
    Extern { name: Identifier },
}

#[derive(Debug)]
pub enum Item {
    Use(Expression),
    Extern(Identifier),
    Module(Module),
    TypeDecl(Vec<Attribute>, Identifier),
    TypeImpl(Vec<Attribute>, TypeImpl),
    Function(Vec<Attribute>, Function),
    Trait(Vec<Attribute>, Trait),
    Const(Vec<Attribute>, Identifier, Expression),
    DocComment(String),
    ModuleDocComment(String),
}

#[derive(Debug)]
pub enum Attribute {
    Identifier(Identifier),
    Named(Identifier, Vec<Attribute>),
    String(String),
    KeyValue(Box<Attribute>, Box<Attribute>),
}

#[derive(Debug)]
pub struct Function {
    pub name: Identifier,
    pub parameters: Vec<Identifier>,
    pub can_error: bool,
    pub is_member: bool,
    pub body: Block,
}

#[derive(Debug)]
pub struct TypeImpl {
    pub name: Identifier,
    pub interface: Option<Identifier>,
    pub methods: Vec<Function>,
}

#[derive(Debug)]
pub struct Trait {
    pub name: Identifier,
    pub methods: Vec<TraitFunction>,
}

#[derive(Debug)]
pub struct TraitFunction {
    pub name: Identifier,
    pub parameters: Vec<Identifier>,
    pub can_error: bool,
    pub is_member: bool,
}

#[derive(Debug)]
pub struct Block {
    pub statements: Vec<Statement>,
}

#[derive(Debug)]
pub enum Statement {
    Use(Expression),
    Expression(Expression),
    Declaration(Identifier, Vec<Identifier>, Option<Expression>),
    Assignment(Expression, Vec<Expression>, AssignOp, Expression),
    IfElse(IfElse),
    Loop(Loop),
    ForLoop(ForLoop),
    WhileLoop(WhileLoop),
    Return(Vec<Expression>),
    Throw(Expression),
    Break(Option<Label>),
    Continue(Option<Label>),
}

#[derive(Debug)]
pub struct IfElse {
    pub condition: Box<Expression>,
    pub if_block: Box<Block>,
    pub else_block: Option<Box<Block>>,
}

#[derive(Debug)]
pub struct Loop {
    pub label: Option<Label>,
    pub block: Block,
}

#[derive(Debug)]
pub struct ForLoop {
    pub label: Option<Label>,
    pub bindings: Vec<Identifier>,
    pub iterator: Expression,
    pub block: Block,
}

#[derive(Debug)]
pub struct WhileLoop {
    pub label: Option<Label>,
    pub condition: Expression,
    pub block: Block,
}

#[derive(Debug)]
pub enum Expression {
    Nil,
    Literal(Literal),
    Identifier(Identifier),
    MemberAccess(Box<Expression>, Identifier),
    IndexAccess(Box<Expression>, Vec<Expression>),
    FunctionCall(Box<Expression>, Vec<Expression>),
    ObjectConstructor(Identifier, ObjectLiteral),
    BinaryOp(Box<Expression>, BinOp, Box<Expression>),
    Negate(Box<Expression>),
    Not(Box<Expression>),
    Try(Box<Expression>),
    Lambda(Box<Lambda>),
}

#[derive(Debug)]
pub struct Lambda {
    pub parameters: Vec<Identifier>,
    pub can_error: bool,
    pub is_member: bool,
    pub body: Block,
}

/// Binary operators, listed from lowest to highest precedence.
#[derive(Copy, Clone, Debug, PartialEq, Eq, Structural)]
pub enum BinOp {
    Implements,
    RangeExclusive,
    RangeInclusive,
    LogicalOr,
    LogicalAnd,
    Equal,
    NotEqual,
    LessThan,
    GreaterThan,
    LessOrEqual,
    GreaterOrEqual,
    BitOr,
    BitXor,
    BitAnd,
    LShiftLeft,
    LShiftRight,
    AShiftRight,
    Add,
    Sub,
    Mul,
    Div,
    Rem,
    DivRem,
    Mod,
}

#[derive(Copy, Clone, Debug, PartialEq, Eq, Structural)]
pub enum AssignOp {
    Assign,
    LogicalOr,
    LogicalAnd,
    BitOr,
    BitXor,
    BitAnd,
    LShiftLeft,
    LShiftRight,
    AShiftRight,
    Add,
    Sub,
    Mul,
    Div,
    Rem,
    Mod,
}

#[derive(Debug)]
pub enum Literal {
    Integer(i64),
    /// A double-precision number, held as its IEEE 754 bit pattern.
    Float(u64),
    Bool(bool),
    String(String),
    Object(ObjectLiteral),
    Array(ArrayLiteral),
    Simd(Vec<Expression>, Option<Identifier>),
    SimdSplat(Box<Expression>, Option<Identifier>),
}

/// The fields of an object literal, as pairs of key and value, meant to be
/// kept with unique keys in ascending order (see `field_keys_ascending`),
/// which folding preserves.
pub type ObjectLiteral = Vec<(String, Expression)>;

/// Whether the keys are unique and in ascending order.
pub open spec fn field_keys_ascending(fields: Seq<(String, ExprV)>) -> bool {
    forall|i: int, j: int| 0 <= i < j < fields.len() ==> text_less(#[trigger] fields[i].0@, #[trigger] fields[j].0@)
}

#[derive(Debug)]
pub enum ArrayLiteral {
    List(Vec<Expression>),
    Splat(Box<Expression>, Box<Expression>),
}

/// Builds a lambda expression; a first parameter named `self` makes it a member.
pub fn lambda(params: Vec<Identifier>, err: Option<&str>, block: Block) -> (r: Expression)
    ensures
        r matches Expression::Lambda(l) && {
            &&& l.can_error == (err is Some)
            &&& l.body == block
            &&& is_self_param(params@) ==> l.is_member && l.parameters@ == params@.drop_first()
            &&& !is_self_param(params@) ==> !l.is_member && l.parameters@ == params@
        },
{
    let (parameters, is_member) = split_self(params);
    Expression::Lambda(Box::new(Lambda { parameters, can_error: err.is_some(), is_member, body: block }))
}

/// Builds a lambda whose body returns `expr`; a first parameter named `self`
/// makes it a member.
pub fn expr_lambda(params: Vec<Identifier>, err: Option<&str>, expr: Expression) -> (r: Expression)
    ensures
        r matches Expression::Lambda(l) && {
            &&& l.can_error == (err is Some)
            &&& l.body.statements@.len() == 1
            &&& l.body.statements@[0] matches Statement::Return(v) && v@ == seq![expr]
            &&& is_self_param(params@) ==> l.is_member && l.parameters@ == params@.drop_first()
            &&& !is_self_param(params@) ==> !l.is_member && l.parameters@ == params@
        },
{
    let (parameters, is_member) = split_self(params);
    let mut ret = Vec::new();
    ret.push(expr);
    let mut statements = Vec::new();
    statements.push(Statement::Return(ret));
    Expression::Lambda(Box::new(Lambda { parameters, can_error: err.is_some(), is_member, body: Block { statements } }))
}

pub open spec fn is_self_param(params: Seq<Identifier>) -> bool {
    params.len() > 0 && params[0]@ == seq!['s', 'e', 'l', 'f']
}

fn is_self(s: &String) -> (r: bool)
    ensures
        r == (s@ == seq!['s', 'e', 'l', 'f']),
{
    let t = s.as_str();
    if t.unicode_len() != 4 {
        return false;
    }
    let r = t.get_char(0) == 's' && t.get_char(1) == 'e' && t.get_char(2) == 'l' && t.get_char(3) == 'f';
    proof {
        if r {
            assert(t@ =~= seq!['s', 'e', 'l', 'f']);
        }
    }
    r
}

fn split_self(params: Vec<Identifier>) -> (r: (Vec<Identifier>, bool))
    ensures
        r.1 == is_self_param(params@),
        r.1 ==> r.0@ == params@.drop_first(),
        !r.1 ==> r.0@ == params@,
{
    let mut params = params;
    let ghost given = params@;
    if params.len() > 0 && is_self(&params[0]) {
        params.remove(0);
        assert(params@ =~= given.drop_first());
        (params, true)
    } else {
        (params, false)
    }
}

// The view of the tree: vectors become sequences, the rest is kept as it is.

pub enum ExprV {
    Nil,
    Literal(LitV),
    Identifier(Identifier),
    MemberAccess(Box<ExprV>, Identifier),
    IndexAccess(Box<ExprV>, Seq<ExprV>),
    FunctionCall(Box<ExprV>, Seq<ExprV>),
    ObjectConstructor(Identifier, Seq<(String, ExprV)>),
    BinaryOp(Box<ExprV>, BinOp, Box<ExprV>),
    Negate(Box<ExprV>),
    Not(Box<ExprV>),
    Try(Box<ExprV>),
    /// Parameters, whether it can fail, whether it is a member, and body.
    Lambda(Vec<Identifier>, bool, bool, Seq<StmtV>),
}

pub enum LitV {
    Integer(i64),
    Float(u64),
    Bool(bool),
    String(String),
    Object(Seq<(String, ExprV)>),
    List(Seq<ExprV>),
    Splat(Box<ExprV>, Box<ExprV>),
    Simd(Seq<ExprV>, Option<Identifier>),
    SimdSplat(Box<ExprV>, Option<Identifier>),
}

pub enum StmtV {
    Use(ExprV),
    Expression(ExprV),
    Declaration(Identifier, Vec<Identifier>, Option<ExprV>),
    Assignment(ExprV, Seq<ExprV>, AssignOp, ExprV),
    /// Condition, then-block and optional else-block.
    IfElse(ExprV, Seq<StmtV>, Option<Seq<StmtV>>),
    Loop(Option<Label>, Seq<StmtV>),
    ForLoop(Option<Label>, Vec<Identifier>, ExprV, Seq<StmtV>),
    WhileLoop(Option<Label>, ExprV, Seq<StmtV>),
    Return(Seq<ExprV>),
    Throw(ExprV),
    Break(Option<Label>),
    Continue(Option<Label>),
}

pub struct FunctionV {
    pub name: Identifier,
    pub parameters: Vec<Identifier>,
    pub can_error: bool,
    pub is_member: bool,
    pub body: Seq<StmtV>,
}

pub enum ItemV {
    Use(ExprV),
    Extern(Identifier),
    Module(ModuleV),
    TypeDecl(Vec<Attribute>, Identifier),
    /// Attributes, type name, implemented interface and methods.
    TypeImpl(Vec<Attribute>, Identifier, Option<Identifier>, Seq<FunctionV>),
    Function(Vec<Attribute>, FunctionV),
    Trait(Vec<Attribute>, Trait),
    Const(Vec<Attribute>, Identifier, ExprV),
    DocComment(String),
    ModuleDocComment(String),
}

pub enum ModuleV {
    Root(Seq<ItemV>),
    Inline(Identifier, Seq<ItemV>),
    Extern(Identifier),
}

pub open spec fn expr_view(e: Expression) -> ExprV
    decreases e,
{
    match e {
        Expression::Nil => ExprV::Nil,
        Expression::Literal(l) => ExprV::Literal(lit_view(l)),
        Expression::Identifier(s) => ExprV::Identifier(s),
        Expression::MemberAccess(b, n) => ExprV::MemberAccess(Box::new(expr_view(*b)), n),
        Expression::IndexAccess(b, args) => ExprV::IndexAccess(Box::new(expr_view(*b)), exprs_view(args)),
        Expression::FunctionCall(b, args) => ExprV::FunctionCall(Box::new(expr_view(*b)), exprs_view(args)),
        Expression::ObjectConstructor(n, fields) => ExprV::ObjectConstructor(n, fields_view(fields)),
        Expression::BinaryOp(l, op, r) => ExprV::BinaryOp(Box::new(expr_view(*l)), op, Box::new(expr_view(*r))),
        Expression::Negate(b) => ExprV::Negate(Box::new(expr_view(*b))),
        Expression::Not(b) => ExprV::Not(Box::new(expr_view(*b))),
        Expression::Try(b) => ExprV::Try(Box::new(expr_view(*b))),
        Expression::Lambda(l) => ExprV::Lambda(l.parameters, l.can_error, l.is_member, block_view(l.body)),
    }
}

pub open spec fn exprs_view(v: Vec<Expression>) -> Seq<ExprV>
    decreases v,
{
    Seq::new(v@.len(), |i: int| if 0 <= i < v@.len() { expr_view(v@[i]) } else { arbitrary() })
}

pub open spec fn fields_view(v: ObjectLiteral) -> Seq<(String, ExprV)>
    decreases v,
{
    Seq::new(
        v@.len(),
        |i: int| if 0 <= i < v@.len() { (v@[i].0, expr_view(v@[i].1)) } else { arbitrary() },
    )
}

pub open spec fn lit_view(l: Literal) -> LitV
    decreases l,
{
    match l {
        Literal::Integer(i) => LitV::Integer(i),
        Literal::Float(f) => LitV::Float(f),
        Literal::Bool(b) => LitV::Bool(b),
        Literal::String(s) => LitV::String(s),
        Literal::Object(fields) => LitV::Object(fields_view(fields)),
        Literal::Array(ArrayLiteral::List(v)) => LitV::List(exprs_view(v)),
        Literal::Array(ArrayLiteral::Splat(x, n)) => LitV::Splat(Box::new(expr_view(*x)), Box::new(expr_view(*n))),
        Literal::Simd(v, t) => LitV::Simd(exprs_view(v), t),
        Literal::SimdSplat(x, t) => LitV::SimdSplat(Box::new(expr_view(*x)), t),
    }
}

pub open spec fn block_view(b: Block) -> Seq<StmtV>
    decreases b,
{
    Seq::new(
        b.statements@.len(),
        |i: int| if 0 <= i < b.statements@.len() { stmt_view(b.statements@[i]) } else { arbitrary() },
    )
}

pub open spec fn stmt_view(s: Statement) -> StmtV
    decreases s,
{
    match s {
        Statement::Use(e) => StmtV::Use(expr_view(e)),
        Statement::Expression(e) => StmtV::Expression(expr_view(e)),
        Statement::Declaration(n, ns, init) => StmtV::Declaration(
            n,
            ns,
            match init {
                Some(e) => Some(expr_view(e)),
                None => None,
            },
        ),
        Statement::Assignment(l, extra, op, r) => StmtV::Assignment(expr_view(l), exprs_view(extra), op, expr_view(r)),
        Statement::IfElse(ie) => StmtV::IfElse(
            expr_view(*ie.condition),
            block_view(*ie.if_block),
            match ie.else_block {
                Some(b) => Some(block_view(*b)),
                None => None,
            },
        ),
        Statement::Loop(l) => StmtV::Loop(l.label, block_view(l.block)),
        Statement::ForLoop(l) => StmtV::ForLoop(l.label, l.bindings, expr_view(l.iterator), block_view(l.block)),
        Statement::WhileLoop(l) => StmtV::WhileLoop(l.label, expr_view(l.condition), block_view(l.block)),
        Statement::Return(v) => StmtV::Return(exprs_view(v)),
        Statement::Throw(e) => StmtV::Throw(expr_view(e)),
        Statement::Break(l) => StmtV::Break(l),
        Statement::Continue(l) => StmtV::Continue(l),
    }
}

pub open spec fn function_view(f: Function) -> FunctionV {
    FunctionV {
        name: f.name,
        parameters: f.parameters,
        can_error: f.can_error,
        is_member: f.is_member,
        body: block_view(f.body),
    }
}

pub open spec fn functions_view(v: Vec<Function>) -> Seq<FunctionV> {
    Seq::new(v@.len(), |i: int| function_view(v@[i]))
}

pub open spec fn item_view(i: Item) -> ItemV
    decreases i,
{
    match i {
        Item::Use(e) => ItemV::Use(expr_view(e)),
        Item::Extern(n) => ItemV::Extern(n),
        Item::Module(m) => ItemV::Module(module_view(m)),
        Item::TypeDecl(a, n) => ItemV::TypeDecl(a, n),
        Item::TypeImpl(a, t) => ItemV::TypeImpl(a, t.name, t.interface, functions_view(t.methods)),
        Item::Function(a, f) => ItemV::Function(a, function_view(f)),
        Item::Trait(a, t) => ItemV::Trait(a, t),
        Item::Const(a, n, e) => ItemV::Const(a, n, expr_view(e)),
        Item::DocComment(s) => ItemV::DocComment(s),
        Item::ModuleDocComment(s) => ItemV::ModuleDocComment(s),
    }
}

pub open spec fn items_view(v: Vec<Item>) -> Seq<ItemV>
    decreases v,
{
    Seq::new(v@.len(), |i: int| if 0 <= i < v@.len() { item_view(v@[i]) } else { arbitrary() })
}

pub open spec fn module_view(m: Module) -> ModuleV
    decreases m,
{
    match m {
        Module::Root { items } => ModuleV::Root(items_view(items)),
        Module::Inline { name, items } => ModuleV::Inline(name, items_view(items)),
        Module::Extern { name } => ModuleV::Extern(name),
    }
}

} // verus!
