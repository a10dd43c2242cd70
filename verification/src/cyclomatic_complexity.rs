//! Cyclomatic complexity: the number of linearly independent paths through
//! a function, measured by counting decision points.
//!
//! A function starts at a baseline of 1. Each conditional, loop, match arm,
//! short-circuit logical operator, error propagation, and early exit adds
//! one unit; blocks and closures are transparent; literals, paths and calls
//! add nothing of their own. The mathematical count is defined by
//! [`body_complexity`]; the executable calculator returns it capped at
//! `usize::MAX`.

use vstd::prelude::*;

use crate::ast::{BinOp, Block, Expr, FnDef, MatchArm, Stmt};
use crate::counts::{cap, sat_add};

verus! {

/// The complexity contribution of one expression.
pub open spec fn complexity_of_expr(e: Expr) -> nat
    decreases e,
{
    match e {
        Expr::If { cond, then_branch, else_branch } => 1 + complexity_of_expr(*cond)
            + complexity_of_stmts(then_branch.stmts@) + (match else_branch {
            Some(el) => complexity_of_expr(*el),
            None => 0,
        }),
        Expr::Match { scrutinee, arms } => 1 + complexity_of_expr(*scrutinee)
            + complexity_of_arms(arms@),
        Expr::While { cond, body } => 1 + complexity_of_expr(*cond)
            + complexity_of_stmts(body.stmts@),
        Expr::ForLoop { iter, body } => 1 + complexity_of_expr(*iter)
            + complexity_of_stmts(body.stmts@),
        Expr::Loop { body } => 1 + complexity_of_stmts(body.stmts@),
        Expr::Binary { op, left, right } => (match op {
            BinOp::And => 1nat,
            BinOp::Or => 1nat,
            BinOp::Other => 0nat,
        }) + complexity_of_expr(*left) + complexity_of_expr(*right),
        Expr::Try { inner } => 1 + complexity_of_expr(*inner),
        Expr::Return { value } => 1 + (match value {
            Some(v) => complexity_of_expr(*v),
            None => 0,
        }),
        Expr::Break { value } => 1 + (match value {
            Some(v) => complexity_of_expr(*v),
            None => 0,
        }),
        Expr::Continue => 1,
        Expr::BlockExpr { block } => complexity_of_stmts(block.stmts@),
        Expr::UnsafeBlock { block } => complexity_of_stmts(block.stmts@),
        Expr::AsyncBlock { block } => complexity_of_stmts(block.stmts@),
        Expr::Closure { body } => complexity_of_expr(*body),
        Expr::Call { callee, args } => complexity_of_expr(*callee) + complexity_of_exprs(args@),
        Expr::MethodCall { receiver, args } => complexity_of_expr(*receiver)
            + complexity_of_exprs(args@),
        Expr::Array { elems } => complexity_of_exprs(elems@),
        Expr::Tuple { elems } => complexity_of_exprs(elems@),
        Expr::Field { base } => complexity_of_expr(*base),
        Expr::Index { base, index } => complexity_of_expr(*base) + complexity_of_expr(*index),
        Expr::Assign { left, right } => complexity_of_expr(*left) + complexity_of_expr(*right),
        Expr::Reference { inner } => complexity_of_expr(*inner),
        Expr::Unary { inner } => complexity_of_expr(*inner),
        Expr::Cast { inner } => complexity_of_expr(*inner),
        Expr::Range { start, end } => (match start {
            Some(s) => complexity_of_expr(*s),
            None => 0,
        }) + (match end {
            Some(en) => complexity_of_expr(*en),
            None => 0,
        }),
        Expr::StructLit { fields, rest } => complexity_of_exprs(fields@) + (match rest {
            Some(r) => complexity_of_expr(*r),
            None => 0,
        }),
        Expr::Paren { inner } => complexity_of_expr(*inner),
        Expr::Group { inner } => complexity_of_expr(*inner),
        Expr::Leaf => 0,
    }
}

/// The complexity contribution of one statement. A nested item is measured
/// as a unit of its own and contributes nothing here; a macro invocation is
/// opaque.
pub open spec fn complexity_of_stmt(s: Stmt) -> nat
    decreases s,
{
    match s {
        Stmt::Expr(e) => complexity_of_expr(e),
        Stmt::Local(init) => match init {
            Some(e) => complexity_of_expr(e),
            None => 0,
        },
        Stmt::Item => 0,
        Stmt::MacroCall => 0,
    }
}

/// The summed complexity contribution of a sequence of statements.
pub open spec fn complexity_of_stmts(ss: Seq<Stmt>) -> nat
    decreases ss,
{
    if ss.len() == 0 {
        0
    } else {
        complexity_of_stmts(ss.drop_last()) + complexity_of_stmt(ss.last())
    }
}

/// The complexity contribution of a block: the sum over its statements.
pub open spec fn complexity_of_block(b: Block) -> nat {
    complexity_of_stmts(b.stmts@)
}

/// The complexity contribution of one match arm: one unit for the arm,
/// plus the guard's and the body's own contributions.
pub open spec fn complexity_of_arm(a: MatchArm) -> nat
    decreases a,
{
    1 + (match a.guard {
        Some(g) => complexity_of_expr(g),
        None => 0,
    }) + complexity_of_expr(a.body)
}

/// The summed complexity contribution of a sequence of match arms.
pub open spec fn complexity_of_arms(arms: Seq<MatchArm>) -> nat
    decreases arms,
{
    if arms.len() == 0 {
        0
    } else {
        complexity_of_arms(arms.drop_last()) + complexity_of_arm(arms.last())
    }
}

/// The summed complexity contribution of a sequence of expressions.
pub open spec fn complexity_of_exprs(es: Seq<Expr>) -> nat
    decreases es,
{
    if es.len() == 0 {
        0
    } else {
        complexity_of_exprs(es.drop_last()) + complexity_of_expr(es.last())
    }
}

/// The cyclomatic complexity of a whole function body: the baseline path
/// plus every decision point in the body.
pub open spec fn body_complexity(b: Block) -> nat {
    1 + complexity_of_block(b)
}

/// Calculates the cyclomatic complexity of a function: 1 for the baseline
/// path, plus one unit per decision point, capped at `usize::MAX`.
pub fn calculate_cyclomatic_complexity(func: &FnDef) -> (r: usize)
    ensures
        r as nat == cap(body_complexity(func.body)),
{
    let body = analyze_block(&func.body);
    sat_add(1, body)
}

/// Sums the complexity contributions of a block's statements.
fn analyze_block(block: &Block) -> (r: usize)
    ensures
        r as nat == cap(complexity_of_block(*block)),
    decreases *block,
{
    let mut total: usize = 0;
    let mut i: usize = 0;
    let n = block.stmts.len();
    while i < n
        invariant
            i <= n,
            n == block.stmts.len(),
            total as nat == cap(complexity_of_stmts(block.stmts@.take(i as int))),
        decreases n - i,
    {
        let c = analyze_statement(&block.stmts[i]);
        proof {
            let ss = block.stmts@;
            assert(ss.take(i + 1).drop_last() =~= ss.take(i as int));
            assert(ss.take(i + 1).last() == ss[i as int]);
        }
        total = sat_add(total, c);
        i = i + 1;
    }
    proof {
        assert(block.stmts@.take(n as int) =~= block.stmts@);
    }
    total
}

/// The complexity contribution of one statement.
fn analyze_statement(stmt: &Stmt) -> (r: usize)
    ensures
        r as nat == cap(complexity_of_stmt(*stmt)),
    decreases *stmt,
{
    match stmt {
        Stmt::Expr(e) => analyze_expression(e),
        Stmt::Local(init) => match init {
            Some(e) => analyze_expression(e),
            None => 0,
        },
        Stmt::Item => 0,
        Stmt::MacroCall => 0,
    }
}

/// The complexity contribution of one expression.
fn analyze_expression(expr: &Expr) -> (r: usize)
    ensures
        r as nat == cap(complexity_of_expr(*expr)),
    decreases *expr,
{
    match expr {
        Expr::If { cond, then_branch, else_branch } => {
            let mut r = sat_add(1, analyze_expression(&**cond));
            r = sat_add(r, analyze_block(then_branch));
            match else_branch {
                Some(el) => sat_add(r, analyze_expression(&**el)),
                None => r,
            }
        },
        Expr::Match { scrutinee, arms } => {
            let r = sat_add(1, analyze_expression(&**scrutinee));
            sat_add(r, analyze_arms(arms))
        },
        Expr::While { cond, body } => {
            let r = sat_add(1, analyze_expression(&**cond));
            sat_add(r, analyze_block(body))
        },
        Expr::ForLoop { iter, body } => {
            let r = sat_add(1, analyze_expression(&**iter));
            sat_add(r, analyze_block(body))
        },
        Expr::Loop { body } => sat_add(1, analyze_block(body)),
        Expr::Binary { op, left, right } => {
            let base: usize = match op {
                BinOp::And => 1,
                BinOp::Or => 1,
                BinOp::Other => 0,
            };
            let r = sat_add(base, analyze_expression(&**left));
            sat_add(r, analyze_expression(&**right))
        },
        Expr::Try { inner } => sat_add(1, analyze_expression(&**inner)),
        Expr::Return { value } => match value {
            Some(v) => sat_add(1, analyze_expression(&**v)),
            None => 1,
        },
        Expr::Break { value } => match value {
            Some(v) => sat_add(1, analyze_expression(&**v)),
            None => 1,
        },
        Expr::Continue => 1,
        Expr::BlockExpr { block } => analyze_block(block),
        Expr::UnsafeBlock { block } => analyze_block(block),
        Expr::AsyncBlock { block } => analyze_block(block),
        Expr::Closure { body } => analyze_expression(&**body),
        Expr::Call { callee, args } => {
            let r = analyze_expression(&**callee);
            sat_add(r, analyze_expressions(args))
        },
        Expr::MethodCall { receiver, args } => {
            let r = analyze_expression(&**receiver);
            sat_add(r, analyze_expressions(args))
        },
        Expr::Array { elems } => analyze_expressions(elems),
        Expr::Tuple { elems } => analyze_expressions(elems),
        Expr::Field { base } => analyze_expression(&**base),
        Expr::Index { base, index } => {
            let r = analyze_expression(&**base);
            sat_add(r, analyze_expression(&**index))
        },
        Expr::Assign { left, right } => {
            let r = analyze_expression(&**left);
            sat_add(r, analyze_expression(&**right))
        },
        Expr::Reference { inner } => analyze_expression(&**inner),
        Expr::Unary { inner } => analyze_expression(&**inner),
        Expr::Cast { inner } => analyze_expression(&**inner),
        Expr::Range { start, end } => {
            let rs = match start {
                Some(s) => analyze_expression(&**s),
                None => 0,
            };
            let re = match end {
                Some(en) => analyze_expression(&**en),
                None => 0,
            };
            sat_add(rs, re)
        },
        Expr::StructLit { fields, rest } => {
            let r = analyze_expressions(fields);
            match rest {
                Some(b) => sat_add(r, analyze_expression(&**b)),
                None => r,
            }
        },
        Expr::Paren { inner } => analyze_expression(&**inner),
        Expr::Group { inner } => analyze_expression(&**inner),
        Expr::Leaf => 0,
    }
}

/// The complexity contribution of one match arm.
fn analyze_match_arm(arm: &MatchArm) -> (r: usize)
    ensures
        r as nat == cap(complexity_of_arm(*arm)),
    decreases *arm,
{
    let g = match &arm.guard {
        Some(e) => analyze_expression(e),
        None => 0,
    };
    let r = sat_add(1, g);
    sat_add(r, analyze_expression(&arm.body))
}

/// Sums the complexity contributions of a list of match arms.
fn analyze_arms(arms: &Vec<MatchArm>) -> (r: usize)
    ensures
        r as nat == cap(complexity_of_arms(arms@)),
    decreases *arms,
{
    let mut total: usize = 0;
    let mut i: usize = 0;
    let n = arms.len();
    while i < n
        invariant
            i <= n,
            n == arms.len(),
            total as nat == cap(complexity_of_arms(arms@.take(i as int))),
        decreases n - i,
    {
        let c = analyze_match_arm(&arms[i]);
        proof {
            assert(arms@.take(i + 1).drop_last() =~= arms@.take(i as int));
            assert(arms@.take(i + 1).last() == arms@[i as int]);
        }
        total = sat_add(total, c);
        i = i + 1;
    }
    proof {
        assert(arms@.take(n as int) =~= arms@);
    }
    total
}

/// Sums the complexity contributions of a list of expressions.
fn analyze_expressions(es: &Vec<Expr>) -> (r: usize)
    ensures
        r as nat == cap(complexity_of_exprs(es@)),
    decreases *es,
{
    let mut total: usize = 0;
    let mut i: usize = 0;
    let n = es.len();
    while i < n
        invariant
            i <= n,
            n == es.len(),
            total as nat == cap(complexity_of_exprs(es@.take(i as int))),
        decreases n - i,
    {
        let c = analyze_expression(&es[i]);
        proof {
            assert(es@.take(i + 1).drop_last() =~= es@.take(i as int));
            assert(es@.take(i + 1).last() == es@[i as int]);
        }
        total = sat_add(total, c);
        i = i + 1;
    }
    proof {
        assert(es@.take(n as int) =~= es@);
    }
    total
}

} // verus!
