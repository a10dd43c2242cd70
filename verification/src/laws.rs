//! Laws relating the two structural metrics.
//!
//! Each proof function here states, over the mathematical definitions in
//! [`crate::cyclomatic_complexity`] and [`crate::nesting_depth`], a general
//! property of the metrics: what straight-line code measures, what each
//! construct adds, and that the metrics are pure functions of the body.

use vstd::prelude::*;

use crate::ast::{BinOp, Block, Expr, MatchArm, Stmt};
use crate::cyclomatic_complexity::{
    body_complexity, complexity_of_arm, complexity_of_arms, complexity_of_expr,
    complexity_of_exprs, complexity_of_stmt, complexity_of_stmts,
};
use crate::nesting_depth::{
    body_nesting, nesting_of_arm, nesting_of_arms, nesting_of_block, nesting_of_expr,
    nesting_of_exprs, nesting_of_stmt, nesting_of_stmts,
};

verus! {

/// An expression with no decision point and no nested scope anywhere
/// inside it: no conditional, match, loop, short-circuit operator, error
/// propagation or early exit, and also no block or closure boundary.
pub open spec fn plain_expr(e: Expr) -> bool
    decreases e,
{
    match e {
        Expr::If { .. } => false,
        Expr::Match { .. } => false,
        Expr::While { .. } => false,
        Expr::ForLoop { .. } => false,
        Expr::Loop { .. } => false,
        Expr::Binary { op, left, right } => (match op {
            BinOp::Other => true,
            _ => false,
        }) && plain_expr(*left) && plain_expr(*right),
        Expr::Try { .. } => false,
        Expr::Return { .. } => false,
        Expr::Break { .. } => false,
        Expr::Continue => false,
        Expr::BlockExpr { .. } => false,
        Expr::UnsafeBlock { .. } => false,
        Expr::AsyncBlock { .. } => false,
        Expr::Closure { .. } => false,
        Expr::Call { callee, args } => plain_expr(*callee) && plain_exprs(args@),
        Expr::MethodCall { receiver, args } => plain_expr(*receiver) && plain_exprs(args@),
        Expr::Array { elems } => plain_exprs(elems@),
        Expr::Tuple { elems } => plain_exprs(elems@),
        Expr::Field { base } => plain_expr(*base),
        Expr::Index { base, index } => plain_expr(*base) && plain_expr(*index),
        Expr::Assign { left, right } => plain_expr(*left) && plain_expr(*right),
        Expr::Reference { inner } => plain_expr(*inner),
        Expr::Unary { inner } => plain_expr(*inner),
        Expr::Cast { inner } => plain_expr(*inner),
        Expr::Range { start, end } => (match start {
            Some(s) => plain_expr(*s),
            None => true,
        }) && (match end {
            Some(en) => plain_expr(*en),
            None => true,
        }),
        Expr::StructLit { fields, rest } => plain_exprs(fields@) && (match rest {
            Some(r) => plain_expr(*r),
            None => true,
        }),
        Expr::Paren { inner } => plain_expr(*inner),
        Expr::Group { inner } => plain_expr(*inner),
        Expr::Leaf => true,
    }
}

/// Every expression in the sequence is plain.
pub open spec fn plain_exprs(es: Seq<Expr>) -> bool
    decreases es,
{
    forall|i: int| 0 <= i < es.len() ==> plain_expr(#[trigger] es[i])
}

/// A statement with no decision point and no nested scope inside it.
pub open spec fn plain_stmt(s: Stmt) -> bool {
    match s {
        Stmt::Expr(e) => plain_expr(e),
        Stmt::Local(init) => match init {
            Some(e) => plain_expr(e),
            None => true,
        },
        Stmt::Item => true,
        Stmt::MacroCall => true,
    }
}

/// Every statement in the sequence is plain.
pub open spec fn plain_stmts(ss: Seq<Stmt>) -> bool {
    forall|i: int| 0 <= i < ss.len() ==> plain_stmt(#[trigger] ss[i])
}

/// A block of straight-line code only.
pub open spec fn plain_block(b: Block) -> bool {
    plain_stmts(b.stmts@)
}

/// A plain expression contributes nothing to either metric.
pub proof fn lemma_plain_expr_no_weight(e: Expr)
    requires
        plain_expr(e),
    ensures
        complexity_of_expr(e) == 0,
        nesting_of_expr(e) == 0,
    decreases e,
{
    match e {
        Expr::Binary { op: _, left, right } => {
            lemma_plain_expr_no_weight(*left);
            lemma_plain_expr_no_weight(*right);
        },
        Expr::Call { callee, args } => {
            lemma_plain_expr_no_weight(*callee);
            lemma_plain_exprs_no_weight(args@);
        },
        Expr::MethodCall { receiver, args } => {
            lemma_plain_expr_no_weight(*receiver);
            lemma_plain_exprs_no_weight(args@);
        },
        Expr::Array { elems } => {
            lemma_plain_exprs_no_weight(elems@);
        },
        Expr::Tuple { elems } => {
            lemma_plain_exprs_no_weight(elems@);
        },
        Expr::Field { base } => {
            lemma_plain_expr_no_weight(*base);
        },
        Expr::Index { base, index } => {
            lemma_plain_expr_no_weight(*base);
            lemma_plain_expr_no_weight(*index);
        },
        Expr::Assign { left, right } => {
            lemma_plain_expr_no_weight(*left);
            lemma_plain_expr_no_weight(*right);
        },
        Expr::Reference { inner } => {
            lemma_plain_expr_no_weight(*inner);
        },
        Expr::Unary { inner } => {
            lemma_plain_expr_no_weight(*inner);
        },
        Expr::Cast { inner } => {
            lemma_plain_expr_no_weight(*inner);
        },
        Expr::Range { start, end } => {
            match start {
                Some(s) => lemma_plain_expr_no_weight(*s),
                None => (),
            }
            match end {
                Some(en) => lemma_plain_expr_no_weight(*en),
                None => (),
            }
        },
        Expr::StructLit { fields, rest } => {
            lemma_plain_exprs_no_weight(fields@);
            match rest {
                Some(r) => lemma_plain_expr_no_weight(*r),
                None => (),
            }
        },
        Expr::Paren { inner } => {
            lemma_plain_expr_no_weight(*inner);
        },
        Expr::Group { inner } => {
            lemma_plain_expr_no_weight(*inner);
        },
        _ => (),
    }
}

/// A sequence of plain expressions contributes nothing to either metric.
pub proof fn lemma_plain_exprs_no_weight(es: Seq<Expr>)
    requires
        plain_exprs(es),
    ensures
        complexity_of_exprs(es) == 0,
        nesting_of_exprs(es) == 0,
    decreases es,
{
    if es.len() > 0 {
        assert(plain_exprs(es.drop_last())) by {
            assert(forall|i: int|
                0 <= i < es.drop_last().len() ==> #[trigger] es.drop_last()[i] == es[i]);
        }
        lemma_plain_exprs_no_weight(es.drop_last());
        lemma_plain_expr_no_weight(es.last());
    }
}

/// A plain statement contributes nothing to either metric.
pub proof fn lemma_plain_stmt_no_weight(s: Stmt)
    requires
        plain_stmt(s),
    ensures
        complexity_of_stmt(s) == 0,
        nesting_of_stmt(s) == 0,
{
    match s {
        Stmt::Expr(e) => lemma_plain_expr_no_weight(e),
        Stmt::Local(init) => match init {
            Some(e) => lemma_plain_expr_no_weight(e),
            None => (),
        },
        _ => (),
    }
}

/// A sequence of plain statements contributes nothing to either metric.
pub proof fn lemma_plain_stmts_no_weight(ss: Seq<Stmt>)
    requires
        plain_stmts(ss),
    ensures
        complexity_of_stmts(ss) == 0,
        nesting_of_stmts(ss) == 0,
    decreases ss,
{
    if ss.len() > 0 {
        assert(plain_stmts(ss.drop_last())) by {
            assert(forall|i: int|
                0 <= i < ss.drop_last().len() ==> #[trigger] ss.drop_last()[i] == ss[i]);
        }
        lemma_plain_stmts_no_weight(ss.drop_last());
        lemma_plain_stmt_no_weight(ss.last());
    }
}

/// A function body with no branching, looping, logical or scope construct
/// has complexity exactly 1 (the baseline path) and nesting depth exactly 0.
pub proof fn lemma_straight_line_body(b: Block)
    requires
        plain_block(b),
    ensures
        body_complexity(b) == 1,
        body_nesting(b) == 0,
{
    lemma_plain_stmts_no_weight(b.stmts@);
}

/// A singleton block measures exactly as its one statement does.
pub proof fn lemma_singleton_block(s: Stmt)
    ensures
        complexity_of_stmts(seq![s]) == complexity_of_stmt(s),
        nesting_of_stmts(seq![s]) == nesting_of_stmt(s),
{
    assert(complexity_of_stmts(Seq::<Stmt>::empty()) == 0);
    assert(nesting_of_stmts(Seq::<Stmt>::empty()) == 0);
    assert(seq![s].drop_last() =~= Seq::<Stmt>::empty());
    assert(seq![s].last() == s);
}

/// A function whose whole body is a single conditional with no else branch,
/// over a plain condition and a plain then-block, has complexity exactly
/// one above the baseline and nesting depth exactly 1.
pub proof fn lemma_single_if_body(b: Block, e: Expr)
    requires
        b.stmts@ == seq![Stmt::Expr(e)],
        e matches Expr::If { cond, then_branch, else_branch: None }
            && plain_expr(*cond) && plain_block(then_branch),
    ensures
        body_complexity(b) == 2,
        body_nesting(b) == 1,
{
    lemma_singleton_block(Stmt::Expr(e));
    if let Expr::If { cond, then_branch, else_branch } = e {
        lemma_plain_expr_no_weight(*cond);
        lemma_plain_stmts_no_weight(then_branch.stmts@);
    }
}

/// An if/else whose condition, then-block and else expression are all
/// plain has complexity exactly one above the baseline — the else branch
/// itself adds no decision point — and nesting depth exactly 1.
pub proof fn lemma_if_else_body(b: Block, e: Expr)
    requires
        b.stmts@ == seq![Stmt::Expr(e)],
        e matches Expr::If { cond, then_branch, else_branch: Some(el) }
            && plain_expr(*cond) && plain_block(then_branch) && plain_expr(*el),
    ensures
        body_complexity(b) == 2,
        body_nesting(b) == 1,
{
    lemma_singleton_block(Stmt::Expr(e));
    if let Expr::If { cond, then_branch, else_branch: Some(el) } = e {
        lemma_plain_expr_no_weight(*cond);
        lemma_plain_stmts_no_weight(then_branch.stmts@);
        lemma_plain_expr_no_weight(*el);
    }
}

/// An if/else whose else branch stands as a braced block still adds no
/// decision point for the else, but the block boundary is a nested scope of
/// its own: the body measures complexity 2 and nesting depth 2. This is the
/// asymmetry between the two else forms — a bare else expression stays at
/// the conditional's own depth, a braced one goes one level deeper.
pub proof fn lemma_if_else_block_body(b: Block, e: Expr)
    requires
        b.stmts@ == seq![Stmt::Expr(e)],
        e matches Expr::If { cond, then_branch, else_branch: Some(el) }
            && plain_expr(*cond) && plain_block(then_branch)
            && (*el matches Expr::BlockExpr { block } && plain_block(block)),
    ensures
        body_complexity(b) == 2,
        body_nesting(b) == 2,
{
    lemma_singleton_block(Stmt::Expr(e));
    if let Expr::If { cond, then_branch, else_branch: Some(el) } = e {
        lemma_plain_expr_no_weight(*cond);
        lemma_plain_stmts_no_weight(then_branch.stmts@);
        if let Expr::BlockExpr { block } = *el {
            lemma_plain_stmts_no_weight(block.stmts@);
            assert(nesting_of_expr(*el) == 1);
            assert(complexity_of_expr(*el) == 0);
        }
    }
}


/// The sub-contribution of one match arm beyond the arm's own unit: its
/// guard's and its body's own decision points.
pub open spec fn arm_subweight(a: MatchArm) -> nat {
    (match a.guard {
        Some(g) => complexity_of_expr(g),
        None => 0,
    }) + complexity_of_expr(a.body)
}

/// The summed sub-contribution of a sequence of match arms.
pub open spec fn arms_subweight(arms: Seq<MatchArm>) -> nat
    decreases arms,
{
    if arms.len() == 0 {
        0
    } else {
        arms_subweight(arms.drop_last()) + arm_subweight(arms.last())
    }
}

/// One match arm contributes exactly one unit of its own, plus its guard's
/// and its body's contributions; every arm, guarded or not, contributes at
/// least 1.
pub proof fn lemma_arm_one_unit(a: MatchArm)
    ensures
        complexity_of_arm(a) == 1 + arm_subweight(a),
        complexity_of_arm(a) >= 1,
{
}

/// A sequence of N match arms contributes exactly N units — one per arm,
/// guarded or not — plus the guards' and bodies' own contributions.
pub proof fn lemma_arms_one_unit_each(arms: Seq<MatchArm>)
    ensures
        complexity_of_arms(arms) == arms.len() + arms_subweight(arms),
    decreases arms,
{
    if arms.len() > 0 {
        lemma_arms_one_unit_each(arms.drop_last());
        assert(complexity_of_arm(arms.last()) == 1 + arm_subweight(arms.last()));
    }
}

/// A match with N arms has complexity 1 (for the match) plus N (one per
/// arm) plus the scrutinee's, guards' and bodies' own contributions.
pub proof fn lemma_match_complexity(e: Expr)
    ensures
        e matches Expr::Match { scrutinee, arms } ==> complexity_of_expr(e) == 1
            + complexity_of_expr(*scrutinee) + arms@.len() + arms_subweight(arms@),
{
    if let Expr::Match { scrutinee, arms } = e {
        lemma_arms_one_unit_each(arms@);
    }
}

/// Each loop construct over plain sub-expressions and a plain body
/// contributes exactly 1 to complexity and exactly 1 to nesting depth.
pub proof fn lemma_loop_constructs(e: Expr)
    ensures
        e matches Expr::While { cond, body } && plain_expr(*cond) && plain_block(body)
            ==> complexity_of_expr(e) == 1 && nesting_of_expr(e) == 1,
        e matches Expr::ForLoop { iter, body } && plain_expr(*iter) && plain_block(body)
            ==> complexity_of_expr(e) == 1 && nesting_of_expr(e) == 1,
        e matches Expr::Loop { body } && plain_block(body) ==> complexity_of_expr(e) == 1
            && nesting_of_expr(e) == 1,
{
    match e {
        Expr::While { cond, body } => {
            if plain_expr(*cond) && plain_block(body) {
                lemma_plain_expr_no_weight(*cond);
                lemma_plain_stmts_no_weight(body.stmts@);
            }
        },
        Expr::ForLoop { iter, body } => {
            if plain_expr(*iter) && plain_block(body) {
                lemma_plain_expr_no_weight(*iter);
                lemma_plain_stmts_no_weight(body.stmts@);
            }
        },
        Expr::Loop { body } => {
            if plain_block(body) {
                lemma_plain_stmts_no_weight(body.stmts@);
            }
        },
        _ => (),
    }
}

/// A short-circuit chain `a && b || c` over plain operands contributes
/// exactly 2 units to complexity: one per short-circuit operator.
pub proof fn lemma_and_or_chain(e: Expr)
    ensures
        e matches Expr::Binary { op: BinOp::Or, left, right }
            && (*left matches Expr::Binary { op: BinOp::And, left: a, right: b }
                && plain_expr(*a) && plain_expr(*b))
            && plain_expr(*right) ==> complexity_of_expr(e) == 2,
{
    if let Expr::Binary { op: BinOp::Or, left, right } = e {
        if let Expr::Binary { op: BinOp::And, left: a, right: b } = *left {
            if plain_expr(*a) && plain_expr(*b) && plain_expr(*right) {
                lemma_plain_expr_no_weight(*a);
                lemma_plain_expr_no_weight(*b);
                lemma_plain_expr_no_weight(*right);
                assert(complexity_of_expr(*left) == 1);
            }
        }
    }
}

/// Each scope construct adds exactly one nesting level on top of what its
/// sub-scope reaches: conditionals and loops over plain heads, bare blocks,
/// closures, and a guardless single-arm match over a plain scrutinee.
pub proof fn lemma_nesting_adds_one_level(e: Expr)
    ensures
        e matches Expr::If { cond, then_branch, else_branch: None } ==> (plain_expr(*cond)
            ==> nesting_of_expr(e) == 1 + nesting_of_block(then_branch)),
        e matches Expr::While { cond, body } ==> (plain_expr(*cond) ==> nesting_of_expr(e) == 1
            + nesting_of_block(body)),
        e matches Expr::ForLoop { iter, body } ==> (plain_expr(*iter) ==> nesting_of_expr(e) == 1
            + nesting_of_block(body)),
        e matches Expr::Loop { body } ==> nesting_of_expr(e) == 1 + nesting_of_block(body),
        e matches Expr::BlockExpr { block } ==> nesting_of_expr(e) == 1 + nesting_of_block(block),
        e matches Expr::Closure { body } ==> nesting_of_expr(e) == 1 + nesting_of_expr(*body),
        e matches Expr::Match { scrutinee, arms } ==> (plain_expr(*scrutinee) && arms@.len() == 1
            && arms@[0].guard is None ==> nesting_of_expr(e) == 1 + nesting_of_expr(arms@[0].body)),
{
    match e {
        Expr::If { cond, then_branch: _, else_branch } => {
            if plain_expr(*cond) && else_branch is None {
                lemma_plain_expr_no_weight(*cond);
            }
        },
        Expr::While { cond, body: _ } => {
            if plain_expr(*cond) {
                lemma_plain_expr_no_weight(*cond);
            }
        },
        Expr::ForLoop { iter, body: _ } => {
            if plain_expr(*iter) {
                lemma_plain_expr_no_weight(*iter);
            }
        },
        Expr::Match { scrutinee, arms } => {
            if plain_expr(*scrutinee) && arms@.len() == 1 && arms@[0].guard is None {
                lemma_plain_expr_no_weight(*scrutinee);
                assert(nesting_of_arms(Seq::<MatchArm>::empty()) == 0);
                assert(arms@.drop_last() =~= Seq::<MatchArm>::empty());
                assert(arms@.last() == arms@[0]);
                assert(nesting_of_arm(arms@[0]) == 1 + nesting_of_expr(arms@[0].body));
                assert(nesting_of_arms(arms@) == 1 + nesting_of_expr(arms@[0].body));
            }
        },
        _ => (),
    }
}

/// A closure whose body is a single conditional over a plain condition and
/// a plain then-block reaches nesting depth exactly 2 — the closure
/// boundary plus the conditional — while the closure boundary itself
/// contributes nothing to complexity.
pub proof fn lemma_closure_with_if(e: Expr)
    ensures
        e matches Expr::Closure { body } && (*body matches Expr::If {
            cond,
            then_branch,
            else_branch: None,
        } && plain_expr(*cond) && plain_block(then_branch)) ==> nesting_of_expr(e) == 2
            && complexity_of_expr(e) == 1,
{
    if let Expr::Closure { body } = e {
        if let Expr::If { cond, then_branch, else_branch: None } = *body {
            if plain_expr(*cond) && plain_block(then_branch) {
                lemma_plain_expr_no_weight(*cond);
                lemma_plain_stmts_no_weight(then_branch.stmts@);
                assert(nesting_of_expr(*body) == 1);
                assert(complexity_of_expr(*body) == 1);
            }
        }
    }
}

/// The metrics are pure functions of the body alone: measuring equal
/// bodies, as often as one likes, yields equal results.
pub proof fn lemma_metrics_deterministic(b1: Block, b2: Block)
    requires
        b1 == b2,
    ensures
        body_complexity(b1) == body_complexity(b2),
        body_nesting(b1) == body_nesting(b2),
{
}

} // verus!
