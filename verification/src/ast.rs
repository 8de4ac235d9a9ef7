//! The abstract syntax tree that the formatter lowers to a `Document`.
//! The tree carries plain values only: names and operator tokens are
//! character vectors, positions are byte spans into the original
//! source. The parser that yields it is an outside collaborator.

use vstd::prelude::*;

use crate::span::Span;

verus! {

/// A whole source file: its statements in order.
pub struct Program {
    pub statements: Vec<Statement>,
}

/// A statement.
pub enum Statement {
    /// An empty statement, a bare `;`.
    Noop(Span),
    /// An expression followed by `;`.
    Expression(Box<ExpressionStatement>),
    /// A named function declaration.
    Function(Box<FunctionDecl>),
    /// A `while` loop.
    While(Box<WhileLoop>),
    /// A `return`, with or without a value.
    Return(Box<ReturnStatement>),
    /// A brace-delimited block in statement position.
    Block(Box<BlockStatement>),
}

pub struct ExpressionStatement {
    pub expression: Expression,
    pub span: Span,
}

pub struct FunctionDecl {
    pub name: Vec<char>,
    pub parameters: ParameterList,
    pub left_brace: Span,
    pub body: Vec<Statement>,
    pub right_brace: Span,
    pub span: Span,
}

pub struct WhileLoop {
    pub condition: Expression,
    pub body: Statement,
    pub span: Span,
}

pub struct ReturnStatement {
    pub value: Option<Expression>,
    pub span: Span,
}

pub struct BlockStatement {
    pub left_brace: Span,
    pub statements: Vec<Statement>,
    pub right_brace: Span,
    pub span: Span,
}

/// The span a statement covers in the original source.
pub open spec fn statement_span(s: Statement) -> Span {
    match s {
        Statement::Noop(sp) => sp,
        Statement::Expression(e) => e.span,
        Statement::Function(d) => d.span,
        Statement::While(w) => w.span,
        Statement::Return(r) => r.span,
        Statement::Block(b) => b.span,
    }
}

impl Statement {
    /// The span this statement covers.
    pub fn span(&self) -> (r: Span)
        ensures
            r == statement_span(*self),
    {
        match self {
            Statement::Noop(sp) => *sp,
            Statement::Expression(e) => e.span,
            Statement::Function(d) => d.span,
            Statement::While(w) => w.span,
            Statement::Return(r) => r.span,
            Statement::Block(b) => b.span,
        }
    }
}

/// An expression. Anonymous classes and `match` expressions are not
/// modeled; as chain bases they would take parentheses the way
/// closures do here.
pub enum Expression {
    /// A variable, with its `$` sign (`$x`).
    Variable(Vec<char>),
    /// Any literal token, kept as written (`true`, `1`, `'a'`).
    Literal(Vec<char>),
    /// `lhs op rhs`.
    Binary(Box<BinaryExpr>),
    /// `op operand`.
    UnaryPrefix(Box<UnaryExpr>),
    /// `operand op`.
    UnaryPostfix(Box<UnaryExpr>),
    /// `lhs op rhs` where `op` assigns.
    Assignment(Box<BinaryExpr>),
    /// `cond ? consequence : alternative`, consequence possibly elided.
    Conditional(Box<ConditionalExpr>),
    /// `( inner )` as written in the source.
    Parenthesized(Box<Expression>),
    /// `new Class(...)`, arguments possibly absent (`new Class`).
    Instantiation(Box<InstantiationExpr>),
    /// A call: free function, method, null-safe method or static.
    Call(Box<CallExpr>),
    /// `clone operand`.
    CloneOf(Box<Expression>),
    /// `yield`, with or without a value.
    Yield(Box<YieldExpr>),
    /// An anonymous `function (...) { ... }`.
    Closure(Box<ClosureExpr>),
    /// `fn (...) => body`.
    ArrowFunction(Box<ArrowFunctionExpr>),
}

pub struct BinaryExpr {
    pub lhs: Expression,
    pub operator: Vec<char>,
    pub rhs: Expression,
}

pub struct UnaryExpr {
    pub operator: Vec<char>,
    pub operand: Expression,
}

pub struct ConditionalExpr {
    pub condition: Expression,
    pub consequence: Option<Expression>,
    pub alternative: Expression,
}

pub struct InstantiationExpr {
    pub class: Expression,
    pub arguments: Option<ArgumentList>,
}

pub struct YieldExpr {
    pub value: Option<Expression>,
}

pub struct ClosureExpr {
    pub parameters: ParameterList,
    pub left_brace: Span,
    pub body: Vec<Statement>,
    pub right_brace: Span,
}

pub struct ArrowFunctionExpr {
    pub parameters: ParameterList,
    pub body: Expression,
}

/// A call expression.
pub enum CallExpr {
    /// `callee(args)`.
    Function(FunctionCall),
    /// `object->method(args)`.
    Method(MethodCall),
    /// `object?->method(args)`.
    NullSafeMethod(MethodCall),
    /// `class::method(args)`.
    StaticMethod(StaticMethodCall),
}

pub struct FunctionCall {
    pub callee: Expression,
    pub arguments: ArgumentList,
}

pub struct MethodCall {
    pub object: Expression,
    pub method: Vec<char>,
    pub arguments: ArgumentList,
}

pub struct StaticMethodCall {
    pub class: Expression,
    pub method: Vec<char>,
    pub arguments: ArgumentList,
}

pub struct ArgumentList {
    pub left_parenthesis: Span,
    pub arguments: Vec<Expression>,
    pub right_parenthesis: Span,
}

/// An ordered function-like parameter list with its parentheses.
pub struct ParameterList {
    pub left_parenthesis: Span,
    pub parameters: Vec<Parameter>,
    pub right_parenthesis: Span,
}

/// One parameter: attribute lists and modifiers kept as raw tokens,
/// the name with its `$` sign, property hooks as raw text when present.
pub struct Parameter {
    pub attribute_lists: Vec<Vec<char>>,
    pub modifiers: Vec<Vec<char>>,
    pub name: Vec<char>,
    pub hooks: Option<Vec<char>>,
    pub span: Span,
}

impl Parameter {
    /// A promoted property: a constructor parameter that carries a
    /// visibility modifier.
    pub fn is_promoted_property(&self) -> (r: bool)
        ensures
            r == (self.modifiers@.len() > 0),
    {
        self.modifiers.len() > 0
    }
}

} // verus!
