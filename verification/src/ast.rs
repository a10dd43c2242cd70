//! The syntax-tree model that the metric calculators walk.
//!
//! A function body is an ordered sequence of statements; expressions form a
//! closed set of variants. Every construct the metrics care about is a
//! distinct variant; everything else (literals, paths, and any unrecognized
//! expression kind) is collapsed into [`Expr::Leaf`], which contributes
//! nothing to either metric.

use vstd::prelude::*;

verus! {

/// Binary operators, reduced to what the metrics distinguish: the two
/// short-circuit logical operators, and everything else.
pub enum BinOp {
    /// Logical short-circuit AND.
    And,
    /// Logical short-circuit OR.
    Or,
    /// Any other binary operator.
    Other,
}

/// A braced sequence of statements.
pub struct Block {
    pub stmts: Vec<Stmt>,
}

/// A statement inside a block.
pub enum Stmt {
    /// An expression statement, with or without a trailing semicolon.
    Expr(Expr),
    /// A variable binding, with an optional initializer expression.
    Local(Option<Expr>),
    /// A nested item definition (such as a nested function). Nested items
    /// are measured as units of their own; the calculators do not descend
    /// into them from the enclosing function.
    Item,
    /// An opaque macro invocation, not analyzed.
    MacroCall,
}

/// One arm of a match expression: an optional boolean guard and a body.
/// The pattern itself carries no metric weight, so it is not modelled.
pub struct MatchArm {
    pub guard: Option<Expr>,
    pub body: Expr,
}

/// An expression.
#[allow(inconsistent_fields)]
pub enum Expr {
    /// A conditional, with an optional else branch (a block or a chained
    /// conditional).
    If { cond: Box<Expr>, then_branch: Block, else_branch: Option<Box<Expr>> },
    /// A match over a scrutinee with a list of arms.
    Match { scrutinee: Box<Expr>, arms: Vec<MatchArm> },
    /// A while loop.
    While { cond: Box<Expr>, body: Block },
    /// A for loop over an iterable expression.
    ForLoop { iter: Box<Expr>, body: Block },
    /// An unconditional loop.
    Loop { body: Block },
    /// A binary operation.
    Binary { op: BinOp, left: Box<Expr>, right: Box<Expr> },
    /// An error-propagation expression (`?`).
    Try { inner: Box<Expr> },
    /// An early return, with an optional value.
    Return { value: Option<Box<Expr>> },
    /// A break, with an optional value.
    Break { value: Option<Box<Expr>> },
    /// A continue.
    Continue,
    /// A bare block expression.
    BlockExpr { block: Block },
    /// An unsafe block.
    UnsafeBlock { block: Block },
    /// An async block.
    AsyncBlock { block: Block },
    /// A closure; only its body is modelled.
    Closure { body: Box<Expr> },
    /// A function call.
    Call { callee: Box<Expr>, args: Vec<Expr> },
    /// A method call.
    MethodCall { receiver: Box<Expr>, args: Vec<Expr> },
    /// An array literal.
    Array { elems: Vec<Expr> },
    /// A tuple literal.
    Tuple { elems: Vec<Expr> },
    /// A field access.
    Field { base: Box<Expr> },
    /// An index expression.
    Index { base: Box<Expr>, index: Box<Expr> },
    /// An assignment.
    Assign { left: Box<Expr>, right: Box<Expr> },
    /// A reference expression.
    Reference { inner: Box<Expr> },
    /// A unary operation.
    Unary { inner: Box<Expr> },
    /// A cast expression.
    Cast { inner: Box<Expr> },
    /// A range expression with optional bounds.
    Range { start: Option<Box<Expr>>, end: Option<Box<Expr>> },
    /// A struct literal: its field value expressions and an optional
    /// rest/base expression.
    StructLit { fields: Vec<Expr>, rest: Option<Box<Expr>> },
    /// A parenthesized expression.
    Paren { inner: Box<Expr> },
    /// A compiler-inserted grouping.
    Group { inner: Box<Expr> },
    /// A literal, path, or any other expression kind that carries no
    /// metric weight.
    Leaf,
}

/// A function definition: its name and its body.
pub struct FnDef {
    pub name: String,
    pub body: Block,
}

/// A parsed source unit: the function definitions found in one file, in
/// source order.
pub struct SourceUnit {
    pub functions: Vec<FnDef>,
}

} // verus!
