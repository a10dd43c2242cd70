//! Maximum nesting depth: how many nested control or scope boundaries an
//! execution path must cross within a function.
//!
//! A construct that opens a nested sub-scope (a conditional branch, a match
//! arm or its guard, a loop body, a bare/unsafe/async block, a closure body)
//! places that sub-scope one level deeper; the condition, scrutinee or
//! iterable expression itself stays at the current level. The value of a
//! subtree is the maximum depth reached anywhere inside it, not a sum. The
//! mathematical depth is defined by [`body_nesting`]; the executable
//! calculator returns it capped at `usize::MAX`.

use vstd::prelude::*;

use crate::ast::{Block, Expr, FnDef, MatchArm, Stmt};
use crate::counts::{cap, max_usize, nmax, sat_add};

verus! {

/// How many nesting levels one expression adds below the level it stands
/// at: the maximum over all paths into its sub-scopes.
pub open spec fn nesting_of_expr(e: Expr) -> nat
    decreases e,
{
    match e {
        Expr::If { cond, then_branch, else_branch } => nmax(
            nesting_of_expr(*cond),
            nmax(
                1 + nesting_of_stmts(then_branch.stmts@),
                match else_branch {
                    Some(el) => 1 + nesting_of_expr(*el),
                    None => 0,
                },
            ),
        ),
        Expr::Match { scrutinee, arms } => nmax(
            nesting_of_expr(*scrutinee),
            nmax(1, nesting_of_arms(arms@)),
        ),
        Expr::While { cond, body } => nmax(
            nesting_of_expr(*cond),
            1 + nesting_of_stmts(body.stmts@),
        ),
        Expr::ForLoop { iter, body } => nmax(
            nesting_of_expr(*iter),
            1 + nesting_of_stmts(body.stmts@),
        ),
        Expr::Loop { body } => 1 + nesting_of_stmts(body.stmts@),
        Expr::Binary { op: _, left, right } => nmax(
            nesting_of_expr(*left),
            nesting_of_expr(*right),
        ),
        Expr::Try { inner } => nesting_of_expr(*inner),
        Expr::Return { value } => match value {
            Some(v) => nesting_of_expr(*v),
            None => 0,
        },
        Expr::Break { value } => match value {
            Some(v) => nesting_of_expr(*v),
            None => 0,
        },
        Expr::Continue => 0,
        Expr::BlockExpr { block } => 1 + nesting_of_stmts(block.stmts@),
        Expr::UnsafeBlock { block } => 1 + nesting_of_stmts(block.stmts@),
        Expr::AsyncBlock { block } => 1 + nesting_of_stmts(block.stmts@),
        Expr::Closure { body } => 1 + nesting_of_expr(*body),
        Expr::Call { callee, args } => nmax(nesting_of_expr(*callee), nesting_of_exprs(args@)),
        Expr::MethodCall { receiver, args } => nmax(
            nesting_of_expr(*receiver),
            nesting_of_exprs(args@),
        ),
        Expr::Array { elems } => nesting_of_exprs(elems@),
        Expr::Tuple { elems } => nesting_of_exprs(elems@),
        Expr::Field { base } => nesting_of_expr(*base),
        Expr::Index { base, index } => nmax(nesting_of_expr(*base), nesting_of_expr(*index)),
        Expr::Assign { left, right } => nmax(nesting_of_expr(*left), nesting_of_expr(*right)),
        Expr::Reference { inner } => nesting_of_expr(*inner),
        Expr::Unary { inner } => nesting_of_expr(*inner),
        Expr::Cast { inner } => nesting_of_expr(*inner),
        Expr::Range { start, end } => nmax(
            match start {
                Some(s) => nesting_of_expr(*s),
                None => 0,
            },
            match end {
                Some(en) => nesting_of_expr(*en),
                None => 0,
            },
        ),
        Expr::StructLit { fields, rest } => nmax(
            nesting_of_exprs(fields@),
            match rest {
                Some(r) => nesting_of_expr(*r),
                None => 0,
            },
        ),
        Expr::Paren { inner } => nesting_of_expr(*inner),
        Expr::Group { inner } => nesting_of_expr(*inner),
        Expr::Leaf => 0,
    }
}

/// The nesting contribution of one statement. Nested items are measured as
/// units of their own; macro invocations are opaque.
pub open spec fn nesting_of_stmt(s: Stmt) -> nat
    decreases s,
{
    match s {
        Stmt::Expr(e) => nesting_of_expr(e),
        Stmt::Local(init) => match init {
            Some(e) => nesting_of_expr(e),
            None => 0,
        },
        Stmt::Item => 0,
        Stmt::MacroCall => 0,
    }
}

/// The deepest nesting reached by any statement in a sequence.
pub open spec fn nesting_of_stmts(ss: Seq<Stmt>) -> nat
    decreases ss,
{
    if ss.len() == 0 {
        0
    } else {
        nmax(nesting_of_stmts(ss.drop_last()), nesting_of_stmt(ss.last()))
    }
}

/// The deepest nesting reached inside a block, relative to the block's own
/// level.
pub open spec fn nesting_of_block(b: Block) -> nat {
    nesting_of_stmts(b.stmts@)
}

/// The nesting contribution of one match arm: its guard and its body each
/// stand one level below the match itself.
pub open spec fn nesting_of_arm(a: MatchArm) -> nat
    decreases a,
{
    nmax(
        match a.guard {
            Some(g) => 1 + nesting_of_expr(g),
            None => 0,
        },
        1 + nesting_of_expr(a.body),
    )
}

/// The deepest nesting reached by any arm in a sequence.
pub open spec fn nesting_of_arms(arms: Seq<MatchArm>) -> nat
    decreases arms,
{
    if arms.len() == 0 {
        0
    } else {
        nmax(nesting_of_arms(arms.drop_last()), nesting_of_arm(arms.last()))
    }
}

/// The deepest nesting reached by any expression in a sequence.
pub open spec fn nesting_of_exprs(es: Seq<Expr>) -> nat
    decreases es,
{
    if es.len() == 0 {
        0
    } else {
        nmax(nesting_of_exprs(es.drop_last()), nesting_of_expr(es.last()))
    }
}

/// The maximum nesting depth of a whole function body. A body with no
/// nesting-increasing construct has depth 0.
pub open spec fn body_nesting(b: Block) -> nat {
    nesting_of_block(b)
}

/// Calculates the maximum nesting depth of a function, capped at
/// `usize::MAX`.
pub fn calculate_nesting_depth(func: &FnDef) -> (r: usize)
    ensures
        r as nat == cap(body_nesting(func.body)),
{
    analyze_block_nesting(&func.body)
}

/// The deepest nesting reached inside a block, relative to the block's own
/// level.
fn analyze_block_nesting(block: &Block) -> (r: usize)
    ensures
        r as nat == cap(nesting_of_block(*block)),
    decreases *block,
{
    let mut deepest: usize = 0;
    let mut i: usize = 0;
    let n = block.stmts.len();
    while i < n
        invariant
            i <= n,
            n == block.stmts.len(),
            deepest as nat == cap(nesting_of_stmts(block.stmts@.take(i as int))),
        decreases n - i,
    {
        let d = analyze_statement_nesting(&block.stmts[i]);
        proof {
            let ss = block.stmts@;
            assert(ss.take(i + 1).drop_last() =~= ss.take(i as int));
            assert(ss.take(i + 1).last() == ss[i as int]);
        }
        deepest = max_usize(deepest, d);
        i = i + 1;
    }
    proof {
        assert(block.stmts@.take(n as int) =~= block.stmts@);
    }
    deepest
}

/// The nesting contribution of one statement.
fn analyze_statement_nesting(stmt: &Stmt) -> (r: usize)
    ensures
        r as nat == cap(nesting_of_stmt(*stmt)),
    decreases *stmt,
{
    match stmt {
        Stmt::Expr(e) => analyze_expression_nesting(e),
        Stmt::Local(init) => match init {
            Some(e) => analyze_expression_nesting(e),
            None => 0,
        },
        Stmt::Item => 0,
        Stmt::MacroCall => 0,
    }
}

/// The nesting contribution of one expression.
fn analyze_expression_nesting(expr: &Expr) -> (r: usize)
    ensures
        r as nat == cap(nesting_of_expr(*expr)),
    decreases *expr,
{
    match expr {
        Expr::If { cond, then_branch, else_branch } => {
            let dc = analyze_expression_nesting(&**cond);
            let dt = sat_add(1, analyze_block_nesting(then_branch));
            let de = match else_branch {
                Some(el) => sat_add(1, analyze_expression_nesting(&**el)),
                None => 0,
            };
            max_usize(dc, max_usize(dt, de))
        },
        Expr::Match { scrutinee, arms } => {
            let ds = analyze_expression_nesting(&**scrutinee);
            let da = analyze_arms_nesting(arms);
            max_usize(ds, max_usize(1, da))
        },
        Expr::While { cond, body } => {
            let dc = analyze_expression_nesting(&**cond);
            let db = sat_add(1, analyze_block_nesting(body));
            max_usize(dc, db)
        },
        Expr::ForLoop { iter, body } => {
            let di = analyze_expression_nesting(&**iter);
            let db = sat_add(1, analyze_block_nesting(body));
            max_usize(di, db)
        },
        Expr::Loop { body } => sat_add(1, analyze_block_nesting(body)),
        Expr::Binary { op: _, left, right } => {
            let dl = analyze_expression_nesting(&**left);
            let dr = analyze_expression_nesting(&**right);
            max_usize(dl, dr)
        },
        Expr::Try { inner } => analyze_expression_nesting(&**inner),
        Expr::Return { value } => match value {
            Some(v) => analyze_expression_nesting(&**v),
            None => 0,
        },
        Expr::Break { value } => match value {
            Some(v) => analyze_expression_nesting(&**v),
            None => 0,
        },
        Expr::Continue => 0,
        Expr::BlockExpr { block } => sat_add(1, analyze_block_nesting(block)),
        Expr::UnsafeBlock { block } => sat_add(1, analyze_block_nesting(block)),
        Expr::AsyncBlock { block } => sat_add(1, analyze_block_nesting(block)),
        Expr::Closure { body } => sat_add(1, analyze_expression_nesting(&**body)),
        Expr::Call { callee, args } => {
            let dc = analyze_expression_nesting(&**callee);
            let da = analyze_exprs_nesting(args);
            max_usize(dc, da)
        },
        Expr::MethodCall { receiver, args } => {
            let dr = analyze_expression_nesting(&**receiver);
            let da = analyze_exprs_nesting(args);
            max_usize(dr, da)
        },
        Expr::Array { elems } => analyze_exprs_nesting(elems),
        Expr::Tuple { elems } => analyze_exprs_nesting(elems),
        Expr::Field { base } => analyze_expression_nesting(&**base),
        Expr::Index { base, index } => {
            let db = analyze_expression_nesting(&**base);
            let di = analyze_expression_nesting(&**index);
            max_usize(db, di)
        },
        Expr::Assign { left, right } => {
            let dl = analyze_expression_nesting(&**left);
            let dr = analyze_expression_nesting(&**right);
            max_usize(dl, dr)
        },
        Expr::Reference { inner } => analyze_expression_nesting(&**inner),
        Expr::Unary { inner } => analyze_expression_nesting(&**inner),
        Expr::Cast { inner } => analyze_expression_nesting(&**inner),
        Expr::Range { start, end } => {
            let ds = match start {
                Some(s) => analyze_expression_nesting(&**s),
                None => 0,
            };
            let de = match end {
                Some(en) => analyze_expression_nesting(&**en),
                None => 0,
            };
            max_usize(ds, de)
        },
        Expr::StructLit { fields, rest } => {
            let df = analyze_exprs_nesting(fields);
            let dr = match rest {
                Some(r) => analyze_expression_nesting(&**r),
                None => 0,
            };
            max_usize(df, dr)
        },
        Expr::Paren { inner } => analyze_expression_nesting(&**inner),
        Expr::Group { inner } => analyze_expression_nesting(&**inner),
        Expr::Leaf => 0,
    }
}

/// The nesting contribution of one match arm.
fn analyze_arm_nesting(arm: &MatchArm) -> (r: usize)
    ensures
        r as nat == cap(nesting_of_arm(*arm)),
    decreases *arm,
{
    let dg = match &arm.guard {
        Some(g) => sat_add(1, analyze_expression_nesting(g)),
        None => 0,
    };
    let db = sat_add(1, analyze_expression_nesting(&arm.body));
    max_usize(dg, db)
}

/// The deepest nesting reached by any arm in a list.
fn analyze_arms_nesting(arms: &Vec<MatchArm>) -> (r: usize)
    ensures
        r as nat == cap(nesting_of_arms(arms@)),
    decreases *arms,
{
    let mut deepest: usize = 0;
    let mut i: usize = 0;
    let n = arms.len();
    while i < n
        invariant
            i <= n,
            n == arms.len(),
            deepest as nat == cap(nesting_of_arms(arms@.take(i as int))),
        decreases n - i,
    {
        let d = analyze_arm_nesting(&arms[i]);
        proof {
            assert(arms@.take(i + 1).drop_last() =~= arms@.take(i as int));
            assert(arms@.take(i + 1).last() == arms@[i as int]);
        }
        deepest = max_usize(deepest, d);
        i = i + 1;
    }
    proof {
        assert(arms@.take(n as int) =~= arms@);
    }
    deepest
}

/// The deepest nesting reached by any expression in a list.
fn analyze_exprs_nesting(es: &Vec<Expr>) -> (r: usize)
    ensures
        r as nat == cap(nesting_of_exprs(es@)),
    decreases *es,
{
    let mut deepest: usize = 0;
    let mut i: usize = 0;
    let n = es.len();
    while i < n
        invariant
            i <= n,
            n == es.len(),
            deepest as nat == cap(nesting_of_exprs(es@.take(i as int))),
        decreases n - i,
    {
        let d = analyze_expression_nesting(&es[i]);
        proof {
            assert(es@.take(i + 1).drop_last() =~= es@.take(i as int));
            assert(es@.take(i + 1).last() == es@[i as int]);
        }
        deepest = max_usize(deepest, d);
        i = i + 1;
    }
    proof {
        assert(es@.take(n as int) =~= es@);
    }
    deepest
}

} // verus!
