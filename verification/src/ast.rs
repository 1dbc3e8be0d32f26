//! The Ocara abstract syntax tree consumed by the lowering.
use vstd::prelude::*;

verus! {

/// A source position.
#[derive(Clone, Copy, Debug, PartialEq, Eq, Structural)]
pub struct Span {
    pub line: usize,
    pub col: usize,
}

impl Span {
    pub fn new(line: usize, col: usize) -> (r: Span)
        ensures
            r.line == line,
            r.col == col,
    {
        Span { line, col }
    }
}

/// A source-level type.
#[derive(Debug, PartialEq)]
pub enum Type {
    Int,
    Float,
    Bool,
    String,
    Mixed,
    Void,
    Null,
    Named(String),
    Qualified(Vec<String>),
    Array(Box<Type>),
    Dict(Box<Type>, Box<Type>),
    Union(Vec<Type>),
    Function { ret_ty: Box<Type>, param_tys: Vec<Type> },
    Generic { name: String, args: Vec<Type> },
    Message(Box<Type>),
}

/// A literal; a float is kept as the bits of its IEEE-754 encoding.
#[derive(Debug, PartialEq)]
pub enum Literal {
    Int(i64),
    Float(u64),
    Bool(bool),
    String(String),
    Null,
}

#[derive(Clone, Copy, Debug, PartialEq, Eq, Structural)]
pub enum BinOp {
    Add,
    Sub,
    Mul,
    Div,
    Mod,
    Equal,
    NotEqual,
    Smaller,
    Greater,
    SmallerOrEqual,
    GreaterOrEqual,
    And,
    Or,
    EqEq,
    NotEq,
    EqEqEq,
    NotEqEq,
    Lt,
    LtEq,
    LtEqEq,
    Gt,
    GtEq,
    GtEqEq,
}

#[derive(Clone, Copy, Debug, PartialEq, Eq, Structural)]
pub enum UnaryOp {
    Neg,
    Not,
}

/// `i++`, `++i`, `i--`, `--i`.
#[derive(Clone, Copy, Debug, PartialEq, Eq, Structural)]
pub enum IncDecOp {
    PreInc,
    PostInc,
    PreDec,
    PostDec,
}

impl IncDecOp {
    pub open spec fn spec_is_prefix(&self) -> bool {
        self is PreInc || self is PreDec
    }

    pub open spec fn spec_is_increment(&self) -> bool {
        self is PreInc || self is PostInc
    }

    #[verifier::when_used_as_spec(spec_is_prefix)]
    pub fn is_prefix(&self) -> (r: bool)
        ensures
            r == self.spec_is_prefix(),
    {
        match self {
            IncDecOp::PreInc | IncDecOp::PreDec => true,
            _ => false,
        }
    }

    #[verifier::when_used_as_spec(spec_is_increment)]
    pub fn is_increment(&self) -> (r: bool)
        ensures
            r == self.spec_is_increment(),
    {
        match self {
            IncDecOp::PreInc | IncDecOp::PostInc => true,
            _ => false,
        }
    }
}

/// Kind of a variable declaration.
#[derive(Clone, Copy, Debug, PartialEq, Eq, Structural)]
pub enum VarKind {
    Var,
    Scoped,
    Consumed,
}

/// A piece of a template string.
#[derive(Debug, PartialEq)]
pub enum TemplatePartExpr {
    Literal(String),
    Expr(Expr),
}

/// The pattern of a `match` arm.
#[derive(Debug, PartialEq)]
pub enum MatchPattern {
    Literal(Literal),
    IsType(Type),
}

/// An arm of a `match` expression (`pattern` is `None` for the default arm).
#[derive(Debug, PartialEq)]
pub struct MatchArm {
    pub pattern: Option<MatchPattern>,
    pub body: Expr,
}

/// A function or closure parameter.
#[derive(Debug, PartialEq)]
pub struct Param {
    pub name: String,
    pub ty: Type,
    pub is_variadic: bool,
    pub default_value: Option<Expr>,
    pub span: Span,
}

/// An expression.
#[derive(Debug, PartialEq)]
pub enum Expr {
    Literal(Literal, Span),
    Ident(String, Span),
    SelfExpr(Span),
    ParentExpr(Span),
    Field { object: Box<Expr>, field: String, span: Span },
    Index { object: Box<Expr>, index: Box<Expr>, span: Span },
    Call { callee: Box<Expr>, args: Vec<Expr>, span: Span },
    StaticCall { class: String, method: String, args: Vec<Expr>, span: Span },
    StaticConst { class: String, name: String, span: Span },
    New { class: String, type_args: Vec<Type>, args: Vec<Expr>, span: Span },
    Binary { op: BinOp, left: Box<Expr>, right: Box<Expr>, span: Span },
    Unary { op: UnaryOp, operand: Box<Expr>, span: Span },
    Array { elements: Vec<Expr>, span: Span },
    Dict { entries: Vec<(Expr, Expr)>, span: Span },
    Range { start: Box<Expr>, end: Box<Expr>, span: Span },
    Match { subject: Box<Expr>, arms: Vec<MatchArm>, span: Span },
    Template { parts: Vec<TemplatePartExpr>, span: Span },
    Nameless { params: Vec<Param>, ret_ty: Option<Type>, body: Block, span: Span },
    Resolve { expr: Box<Expr>, span: Span },
    IsCheck { expr: Box<Expr>, ty: Type, span: Span },
    IncDec { op: IncDecOp, target: Box<Expr>, span: Span },
}

/// A case of a `switch` statement.
#[derive(Debug, PartialEq)]
pub struct SwitchCase {
    pub pattern: Literal,
    pub body: Block,
    pub span: Span,
}

/// An `on e [is Class] { ... }` handler of a `try`.
#[derive(Debug, PartialEq)]
pub struct OnClause {
    pub binding: String,
    pub class_filter: Option<String>,
    pub body: Block,
    pub span: Span,
}

/// A statement.
#[derive(Debug, PartialEq)]
pub enum Stmt {
    Var { name: String, ty: Type, value: Expr, mutable: bool, kind: VarKind, span: Span },
    Const { name: String, ty: Type, value: Expr, span: Span },
    Expr(Expr),
    Assign { target: Expr, value: Expr, span: Span },
    Return { value: Option<Expr>, span: Span },
    Result { value: Option<Expr>, span: Span },
    If { condition: Expr, then_block: Block, elseif: Vec<(Expr, Block)>, else_block: Option<Block>, span: Span },
    While { condition: Expr, body: Block, span: Span },
    ForIn { var: String, iter: Expr, body: Block, span: Span },
    ForMap { key: String, value: String, iter: Expr, body: Block, span: Span },
    Switch { subject: Expr, cases: Vec<SwitchCase>, default: Option<Block>, span: Span },
    Break { span: Span },
    Continue { span: Span },
    Try { body: Block, handlers: Vec<OnClause>, span: Span },
    Raise { value: Expr, span: Span },
    Emit { value: Expr, span: Span },
}

/// A sequence of statements.
#[derive(Debug, PartialEq)]
pub struct Block {
    pub stmts: Vec<Stmt>,
    pub span: Span,
}

/// A function declaration.
#[derive(Debug, PartialEq)]
pub struct FuncDecl {
    pub name: String,
    pub params: Vec<Param>,
    pub ret_ty: Type,
    pub body: Block,
    pub is_async: bool,
    pub span: Span,
}

/// A member of a class or of a module.
#[derive(Debug, PartialEq)]
pub enum ClassMember {
    Field { name: String, ty: Type, span: Span },
    Method { decl: FuncDecl, is_static: bool, span: Span },
    Constructor { params: Vec<Param>, body: Block, span: Span },
    Const { name: String, ty: Type, value: Expr, span: Span },
}

/// A class declaration.
#[derive(Debug, PartialEq)]
pub struct ClassDecl {
    pub name: String,
    pub extends: Option<String>,
    pub implements: Vec<String>,
    pub modules: Vec<String>,
    pub members: Vec<ClassMember>,
    pub span: Span,
}

/// A reusable module of members mixed into classes.
#[derive(Debug, PartialEq)]
pub struct ModuleDecl {
    pub name: String,
    pub members: Vec<ClassMember>,
    pub span: Span,
}

/// A method signature of an interface.
#[derive(Debug, PartialEq)]
pub struct InterfaceMethod {
    pub name: String,
    pub params: Vec<Param>,
    pub ret_ty: Type,
    pub span: Span,
}

/// An interface declaration.
#[derive(Debug, PartialEq)]
pub struct InterfaceDecl {
    pub name: String,
    pub methods: Vec<InterfaceMethod>,
    pub span: Span,
}

/// A variant of an enum declaration.
#[derive(Debug, PartialEq)]
pub struct EnumVariant {
    pub name: String,
    pub value: Option<i64>,
}

/// An enum declaration.
#[derive(Debug, PartialEq)]
pub struct EnumDecl {
    pub name: String,
    pub variants: Vec<EnumVariant>,
    pub span: Span,
}

/// A global constant.
#[derive(Debug, PartialEq)]
pub struct ConstDecl {
    pub name: String,
    pub ty: Type,
    pub value: Expr,
    pub span: Span,
}

/// An `import a.b.C`.
#[derive(Debug, PartialEq)]
pub struct ImportDecl {
    pub path: Vec<String>,
    pub span: Span,
}

/// Kinds of runtime blocks.
#[derive(Clone, Copy, Debug, PartialEq, Eq, Structural)]
pub enum RuntimeBlockKind {
    Init,
    Main,
    Success,
    Error,
    Exit,
}

/// A runtime block (`init { }`, `main { }`, ...).
#[derive(Debug, PartialEq)]
pub struct RuntimeBlock {
    pub kind: RuntimeBlockKind,
    pub statements: Vec<Stmt>,
    pub span: Span,
}

/// A whole program.
#[derive(Debug, PartialEq)]
pub struct Program {
    pub imports: Vec<ImportDecl>,
    pub consts: Vec<ConstDecl>,
    pub functions: Vec<FuncDecl>,
    pub classes: Vec<ClassDecl>,
    pub interfaces: Vec<InterfaceDecl>,
    pub modules: Vec<ModuleDecl>,
    pub enums: Vec<EnumDecl>,
    pub runtime_blocks: Vec<RuntimeBlock>,
}

} // verus!
