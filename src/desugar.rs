use vstd::prelude::*;
use crate::ast::{Expr, Pattern, Statement, AST};
use crate::prim::{Id, Symbol};

verus! {

broadcast use {vstd::std_specs::vec::group_vec_axioms, vstd::seq::group_seq_axioms};

/// Name tag of the parameters that desugaring synthesises.
pub open spec fn arg_tag() -> Seq<char> {
    seq!['#', 'a', 'r', 'g']
}

pub open spec fn true_name() -> Seq<char> {
    seq!['t', 'r', 'u', 'e']
}

pub open spec fn false_name() -> Seq<char> {
    seq!['f', 'a', 'l', 's', 'e']
}

/// A nullary constructor pattern for the given name.
pub open spec fn is_nullary_pat(p: Pattern<()>, name: Seq<char>) -> bool {
    &&& p matches Pattern::Constructor { name: c, arg, .. }
    &&& arg is None
    &&& c.0@ == name
    &&& c.1 == 0
}

/// How many fresh names desugaring an expression takes.
pub open spec fn fresh_expr(e: Expr<()>) -> nat
    decreases e, 0int,
{
    match e {
        Expr::Binds { binds, ret, .. } => fresh_stmts(binds@, binds@.len() as int) + fresh_expr(*ret),
        Expr::BinOp { l, r, .. } => fresh_expr(*l) + fresh_expr(*r),
        Expr::Fn { body, .. } => fresh_expr(*body),
        Expr::App { fun, arg, .. } => fresh_expr(*fun) + fresh_expr(*arg),
        Expr::If { cond, on_true, on_false, .. } => fresh_expr(*cond) + fresh_expr(*on_true) + fresh_expr(*on_false),
        Expr::Case { cond, clauses, .. } => fresh_expr(*cond) + fresh_clauses(clauses@, clauses@.len() as int),
        Expr::Tuple { tuple, .. } => fresh_exprs(tuple@, tuple@.len() as int),
        Expr::Constructor { arg, .. } => match arg {
            Some(a) => fresh_expr(*a),
            None => 0,
        },
        Expr::Sym { .. } => 0,
        Expr::Lit { .. } => 0,
    }
}

/// Fresh names taken by the first `k` expressions of `s`.
pub open spec fn fresh_exprs(s: Seq<Expr<()>>, k: int) -> nat
    decreases s, k,
{
    if k <= 0 || k > s.len() {
        0
    } else {
        fresh_exprs(s, k - 1) + fresh_expr(s[k - 1])
    }
}

pub open spec fn fresh_clauses(s: Seq<(Pattern<()>, Expr<()>)>, k: int) -> nat
    decreases s, k,
{
    if k <= 0 || k > s.len() {
        0
    } else {
        fresh_clauses(s, k - 1) + fresh_expr(s[k - 1].1)
    }
}

pub open spec fn fresh_stmt(st: Statement<()>) -> nat
    decreases st, 0int,
{
    match st {
        Statement::Datatype { .. } => 0,
        Statement::Val { expr, .. } => fresh_expr(expr),
        Statement::Fun { params, expr, .. } => params@.len() + fresh_expr(expr),
    }
}

pub open spec fn fresh_stmts(s: Seq<Statement<()>>, k: int) -> nat
    decreases s, k,
{
    if k <= 0 || k > s.len() {
        0
    } else {
        fresh_stmts(s, k - 1) + fresh_stmt(s[k - 1])
    }
}

/// `o` is what desugaring `e` yields when the counter stands at `n`.
pub open spec fn desugars_to(e: Expr<()>, n: int, o: Expr<()>) -> bool
    decreases e, 0int,
{
    match e {
        Expr::Binds { binds, ret, .. } => {
            &&& o matches Expr::Binds { binds: ob, ret: oret, .. }
            &&& stmts_desugar_to(binds@, n, ob@)
            &&& desugars_to(*ret, n + fresh_stmts(binds@, binds@.len() as int), *oret)
        },
        Expr::BinOp { op, l, r, .. } => {
            &&& o matches Expr::BinOp { op: oop, l: ol, r: or, .. }
            &&& oop == op
            &&& desugars_to(*l, n, *ol)
            &&& desugars_to(*r, n + fresh_expr(*l), *or)
        },
        Expr::Fn { param, body, .. } => {
            &&& o matches Expr::Fn { param: op, body: ob, .. }
            &&& op == param
            &&& desugars_to(*body, n, *ob)
        },
        Expr::App { fun, arg, .. } => {
            &&& o matches Expr::App { fun: of, arg: oa, .. }
            &&& desugars_to(*fun, n, *of)
            &&& desugars_to(*arg, n + fresh_expr(*fun), *oa)
        },
        Expr::If { cond, on_true, on_false, .. } => {
            &&& o matches Expr::Case { cond: oc, clauses, .. }
            &&& clauses@.len() == 2
            &&& desugars_to(*cond, n, *oc)
            &&& is_nullary_pat(clauses@[0].0, true_name())
            &&& desugars_to(*on_true, n + fresh_expr(*cond), clauses@[0].1)
            &&& is_nullary_pat(clauses@[1].0, false_name())
            &&& desugars_to(*on_false, n + fresh_expr(*cond) + fresh_expr(*on_true), clauses@[1].1)
        },
        Expr::Case { cond, clauses, .. } => {
            &&& o matches Expr::Case { cond: oc, clauses: ocl, .. }
            &&& desugars_to(*cond, n, *oc)
            &&& clauses_desugar_to(clauses@, n + fresh_expr(*cond), ocl@)
        },
        Expr::Tuple { tuple, .. } => {
            &&& o matches Expr::Tuple { tuple: ot, .. }
            &&& exprs_desugar_to(tuple@, n, ot@)
        },
        Expr::Constructor { arg, name, .. } => {
            &&& o matches Expr::Constructor { arg: oa, name: on, .. }
            &&& on == name
            &&& match arg {
                Some(a) => oa matches Some(b) && desugars_to(*a, n, *b),
                None => oa is None,
            }
        },
        Expr::Sym { .. } => o == e,
        Expr::Lit { .. } => o == e,
    }
}

pub open spec fn exprs_desugar_to(s: Seq<Expr<()>>, n: int, o: Seq<Expr<()>>) -> bool
    decreases s, 0int,
{
    &&& o.len() == s.len()
    &&& forall|j: int| 0 <= j < s.len() ==> desugars_to(s[j], n + fresh_exprs(s, j), #[trigger] o[j])
}

pub open spec fn clauses_desugar_to(
    s: Seq<(Pattern<()>, Expr<()>)>,
    n: int,
    o: Seq<(Pattern<()>, Expr<()>)>,
) -> bool
    decreases s, 0int,
{
    &&& o.len() == s.len()
    &&& forall|j: int|
        0 <= j < s.len() ==> (#[trigger] o[j]).0 == s[j].0 && desugars_to(
            s[j].1,
            n + fresh_clauses(s, j),
            o[j].1,
        )
}

/// The nested one-parameter functions built for the parameters `ps[j..]`,
/// whose synthesised parameters take identities from `m` on, last
/// parameter first.
pub open spec fn curried(ps: Seq<Pattern<()>>, j: int, m: int, o: Expr<()>) -> bool
    decreases ps.len() - j,
{
    if j < 0 || j >= ps.len() {
        true
    } else {
        &&& o matches Expr::Fn { param, body, .. }
        &&& param.0@ == arg_tag()
        &&& param.1 == m + (ps.len() - 1 - j)
        &&& *body matches Expr::Case { cond, clauses, .. }
        &&& *cond == Expr::Sym { ty: (), name: param }
        &&& clauses@.len() == 1
        &&& clauses@[0].0 == ps[j]
        &&& curried(ps, j + 1, m, clauses@[0].1)
    }
}

/// The body under the functions that `curried` describes.
pub open spec fn innermost(ps: Seq<Pattern<()>>, j: int, o: Expr<()>) -> Expr<()>
    decreases ps.len() - j,
{
    if j < 0 || j >= ps.len() {
        o
    } else {
        match o {
            Expr::Fn { body, .. } => match *body {
                Expr::Case { clauses, .. } => if clauses@.len() > 0 {
                    innermost(ps, j + 1, clauses@[0].1)
                } else {
                    o
                },
                _ => o,
            },
            _ => o,
        }
    }
}

pub open spec fn stmt_desugars_to(st: Statement<()>, n: int, o: Statement<()>) -> bool
    decreases st, 0int,
{
    match st {
        Statement::Datatype { .. } => o == st,
        Statement::Val { rec, pattern, expr } => {
            &&& o matches Statement::Val { rec: orec, pattern: op, expr: oe }
            &&& orec == rec
            &&& op == pattern
            &&& desugars_to(expr, n, oe)
        },
        Statement::Fun { name, params, expr } => {
            &&& o matches Statement::Val { rec, pattern, expr: oe }
            &&& rec
            &&& pattern == Pattern::Variable { name, ty: () }
            &&& curried(params@, 0, n + fresh_expr(expr), oe)
            &&& desugars_to(expr, n, innermost(params@, 0, oe))
        },
    }
}

pub open spec fn stmts_desugar_to(s: Seq<Statement<()>>, n: int, o: Seq<Statement<()>>) -> bool
    decreases s, 0int,
{
    &&& o.len() == s.len()
    &&& forall|j: int| 0 <= j < s.len() ==> stmt_desugars_to(s[j], n + fresh_stmts(s, j), #[trigger] o[j])
}

proof fn lemma_fresh_exprs_mono(s: Seq<Expr<()>>, i: int, k: int)
    requires
        0 <= i <= k <= s.len(),
    ensures
        fresh_exprs(s, i) <= fresh_exprs(s, k),
    decreases k,
{
    if i < k {
        lemma_fresh_exprs_mono(s, i, k - 1);
    }
}

proof fn lemma_fresh_clauses_mono(s: Seq<(Pattern<()>, Expr<()>)>, i: int, k: int)
    requires
        0 <= i <= k <= s.len(),
    ensures
        fresh_clauses(s, i) <= fresh_clauses(s, k),
    decreases k,
{
    if i < k {
        lemma_fresh_clauses_mono(s, i, k - 1);
    }
}

proof fn lemma_fresh_stmts_mono(s: Seq<Statement<()>>, i: int, k: int)
    requires
        0 <= i <= k <= s.len(),
    ensures
        fresh_stmts(s, i) <= fresh_stmts(s, k),
    decreases k,
{
    if i < k {
        lemma_fresh_stmts_mono(s, i, k - 1);
    }
}

/// Two trees are the same node for node (vectors compared by their contents).
pub open spec fn same_expr(a: Expr<()>, b: Expr<()>) -> bool
    decreases a, 0int,
{
    match a {
        Expr::Binds { binds, ret, .. } => {
            &&& b matches Expr::Binds { binds: bb, ret: br, .. }
            &&& bb@.len() == binds@.len()
            &&& forall|j: int| 0 <= j < binds@.len() ==> same_stmt(#[trigger] binds@[j], bb@[j])
            &&& same_expr(*ret, *br)
        },
        Expr::BinOp { op, l, r, .. } => {
            &&& b matches Expr::BinOp { op: bo, l: bl, r: br, .. }
            &&& bo == op
            &&& same_expr(*l, *bl)
            &&& same_expr(*r, *br)
        },
        Expr::Fn { param, body, .. } => {
            &&& b matches Expr::Fn { param: bp, body: bb, .. }
            &&& bp == param
            &&& same_expr(*body, *bb)
        },
        Expr::App { fun, arg, .. } => {
            &&& b matches Expr::App { fun: bf, arg: ba, .. }
            &&& same_expr(*fun, *bf)
            &&& same_expr(*arg, *ba)
        },
        Expr::If { cond, on_true, on_false, .. } => {
            &&& b matches Expr::If { cond: bc, on_true: bt, on_false: bf, .. }
            &&& same_expr(*cond, *bc)
            &&& same_expr(*on_true, *bt)
            &&& same_expr(*on_false, *bf)
        },
        Expr::Case { cond, clauses, .. } => {
            &&& b matches Expr::Case { cond: bc, clauses: bcl, .. }
            &&& same_expr(*cond, *bc)
            &&& bcl@.len() == clauses@.len()
            &&& forall|j: int| 0 <= j < clauses@.len() ==> (#[trigger] clauses@[j]).0 == bcl@[j].0 && same_expr(clauses@[j].1, bcl@[j].1)
        },
        Expr::Tuple { tuple, .. } => {
            &&& b matches Expr::Tuple { tuple: bt, .. }
            &&& bt@.len() == tuple@.len()
            &&& forall|j: int| 0 <= j < tuple@.len() ==> same_expr(#[trigger] tuple@[j], bt@[j])
        },
        Expr::Constructor { arg, name, .. } => {
            &&& b matches Expr::Constructor { arg: ba, name: bn, .. }
            &&& bn == name
            &&& match arg {
                Some(x) => ba matches Some(y) && same_expr(*x, *y),
                None => ba is None,
            }
        },
        Expr::Sym { .. } => b == a,
        Expr::Lit { .. } => b == a,
    }
}

pub open spec fn same_stmt(a: Statement<()>, b: Statement<()>) -> bool
    decreases a, 0int,
{
    match a {
        Statement::Datatype { .. } => b == a,
        Statement::Val { rec, pattern, expr } => {
            &&& b matches Statement::Val { rec: br, pattern: bp, expr: be }
            &&& br == rec
            &&& bp == pattern
            &&& same_expr(expr, be)
        },
        Statement::Fun { name, params, expr } => {
            &&& b matches Statement::Fun { name: bn, params: bp, expr: be }
            &&& bn == name
            &&& bp@ == params@
            &&& same_expr(expr, be)
        },
    }
}

proof fn lemma_core_exprs_each(s: Seq<Expr<()>>, k: int)
    requires
        0 <= k <= s.len(),
        crate::ast::is_core_exprs(s, k),
    ensures
        forall|j: int| 0 <= j < k ==> crate::ast::is_core_expr(#[trigger] s[j]),
    decreases k,
{
    if k > 0 {
        lemma_core_exprs_each(s, k - 1);
    }
}

proof fn lemma_core_clauses_each(s: Seq<(Pattern<()>, Expr<()>)>, k: int)
    requires
        0 <= k <= s.len(),
        crate::ast::is_core_clauses(s, k),
    ensures
        forall|j: int| 0 <= j < k ==> crate::ast::is_core_expr(#[trigger] s[j].1),
    decreases k,
{
    if k > 0 {
        lemma_core_clauses_each(s, k - 1);
    }
}

proof fn lemma_core_stmts_each(s: Seq<Statement<()>>, k: int)
    requires
        0 <= k <= s.len(),
        crate::ast::is_core_stmts(s, k),
    ensures
        forall|j: int| 0 <= j < k ==> crate::ast::is_core_stmt(#[trigger] s[j]),
    decreases k,
{
    if k > 0 {
        lemma_core_stmts_each(s, k - 1);
    }
}

proof fn lemma_fresh_exprs_zero(s: Seq<Expr<()>>, k: int)
    requires
        0 <= k <= s.len(),
        forall|j: int| 0 <= j < k ==> fresh_expr(#[trigger] s[j]) == 0,
    ensures
        fresh_exprs(s, k) == 0,
    decreases k,
{
    if k > 0 {
        lemma_fresh_exprs_zero(s, k - 1);
    }
}

proof fn lemma_fresh_clauses_zero(s: Seq<(Pattern<()>, Expr<()>)>, k: int)
    requires
        0 <= k <= s.len(),
        forall|j: int| 0 <= j < k ==> fresh_expr(#[trigger] s[j].1) == 0,
    ensures
        fresh_clauses(s, k) == 0,
    decreases k,
{
    if k > 0 {
        lemma_fresh_clauses_zero(s, k - 1);
    }
}

proof fn lemma_fresh_stmts_zero(s: Seq<Statement<()>>, k: int)
    requires
        0 <= k <= s.len(),
        forall|j: int| 0 <= j < k ==> fresh_stmt(#[trigger] s[j]) == 0,
    ensures
        fresh_stmts(s, k) == 0,
    decreases k,
{
    if k > 0 {
        lemma_fresh_stmts_zero(s, k - 1);
    }
}

/// Desugaring a canonical expression (no conditional, no function
/// definition anywhere in it) draws no fresh name and gives the expression
/// back unchanged.
pub proof fn lemma_desugar_canonical_expr(e: Expr<()>, n: int, o: Expr<()>)
    requires
        crate::ast::is_core_expr(e),
        desugars_to(e, n, o),
    ensures
        fresh_expr(e) == 0,
        same_expr(e, o),
    decreases e, 0int,
{
    match e {
        Expr::Binds { binds, ret, .. } => {
            let s = binds@;
            let ob = o->Binds_binds@;
            lemma_core_stmts_each(s, s.len() as int);
            assert(stmts_desugar_to(s, n, ob));
            assert forall|j: int| 0 <= j < s.len() implies fresh_stmt(#[trigger] s[j]) == 0 && same_stmt(s[j], ob[j]) by {
                assert(stmt_desugars_to(s[j], n + fresh_stmts(s, j), ob[j]));
                assert(decreases_to!(e => e->Binds_binds));
                lemma_desugar_canonical_stmt(s[j], n + fresh_stmts(s, j), ob[j]);
            }
            lemma_fresh_stmts_zero(s, s.len() as int);
            lemma_desugar_canonical_expr(*ret, n, *o->Binds_ret);
        },
        Expr::BinOp { l, r, .. } => {
            lemma_desugar_canonical_expr(*l, n, *o->BinOp_l);
            lemma_desugar_canonical_expr(*r, n, *o->BinOp_r);
        },
        Expr::Fn { body, .. } => {
            lemma_desugar_canonical_expr(*body, n, *o->Fn_body);
        },
        Expr::App { fun, arg, .. } => {
            lemma_desugar_canonical_expr(*fun, n, *o->App_fun);
            lemma_desugar_canonical_expr(*arg, n, *o->App_arg);
        },
        Expr::If { .. } => {},
        Expr::Case { cond, clauses, .. } => {
            let s = clauses@;
            let oc = o->Case_clauses@;
            lemma_desugar_canonical_expr(*cond, n, *o->Case_cond);
            lemma_core_clauses_each(s, s.len() as int);
            assert(clauses_desugar_to(s, n + fresh_expr(*cond), oc));
            assert forall|j: int| 0 <= j < s.len() implies fresh_expr(#[trigger] s[j].1) == 0 && same_expr(s[j].1, oc[j].1) by {
                assert(decreases_to!(e => e->Case_clauses));
                assert(decreases_to!(s[j] => s[j].1));
                assert(oc[j].0 == s[j].0 && desugars_to(s[j].1, n + fresh_expr(*cond) + fresh_clauses(s, j), oc[j].1));
                lemma_desugar_canonical_expr(s[j].1, n + fresh_expr(*cond) + fresh_clauses(s, j), oc[j].1);
            }
            lemma_fresh_clauses_zero(s, s.len() as int);
        },
        Expr::Tuple { tuple, .. } => {
            let s = tuple@;
            let ot = o->Tuple_tuple@;
            lemma_core_exprs_each(s, s.len() as int);
            assert(exprs_desugar_to(s, n, ot));
            assert forall|j: int| 0 <= j < s.len() implies fresh_expr(#[trigger] s[j]) == 0 && same_expr(s[j], ot[j]) by {
                assert(desugars_to(s[j], n + fresh_exprs(s, j), ot[j]));
                assert(decreases_to!(e => e->Tuple_tuple));
                lemma_desugar_canonical_expr(s[j], n + fresh_exprs(s, j), ot[j]);
            }
            lemma_fresh_exprs_zero(s, s.len() as int);
        },
        Expr::Constructor { arg, .. } => {
            if let Some(a) = arg {
                lemma_desugar_canonical_expr(*a, n, *o->Constructor_arg->0);
            }
        },
        Expr::Sym { .. } => {},
        Expr::Lit { .. } => {},
    }
}

/// The same for a statement: a canonical statement comes back unchanged.
pub proof fn lemma_desugar_canonical_stmt(st: Statement<()>, n: int, o: Statement<()>)
    requires
        crate::ast::is_core_stmt(st),
        stmt_desugars_to(st, n, o),
    ensures
        fresh_stmt(st) == 0,
        same_stmt(st, o),
    decreases st, 0int,
{
    if let Statement::Val { expr, .. } = st {
        lemma_desugar_canonical_expr(expr, n, o->Val_expr);
    }
}

/// Desugaring a canonical program leaves the counter where it was and gives
/// every statement back unchanged.
pub proof fn lemma_desugar_canonical(s: Seq<Statement<()>>, n: int, o: Seq<Statement<()>>)
    requires
        crate::ast::is_core_stmts(s, s.len() as int),
        stmts_desugar_to(s, n, o),
    ensures
        fresh_stmts(s, s.len() as int) == 0,
        o.len() == s.len(),
        forall|j: int| 0 <= j < s.len() ==> same_stmt(#[trigger] s[j], o[j]),
{
    lemma_core_stmts_each(s, s.len() as int);
    assert forall|j: int| 0 <= j < s.len() implies fresh_stmt(#[trigger] s[j]) == 0 && same_stmt(s[j], o[j]) by {
        lemma_desugar_canonical_stmt(s[j], n + fresh_stmts(s, j), o[j]);
    }
    lemma_fresh_stmts_zero(s, s.len() as int);
}

/// A conditional desugars to a case on its desugared condition with
/// exactly two clauses: `true` selects the desugared first branch, `false`
/// the desugared second one.
pub proof fn lemma_if_lowering(
    cond: Expr<()>,
    on_true: Expr<()>,
    on_false: Expr<()>,
    n: int,
    o: Expr<()>,
)
    requires
        desugars_to(Expr::If { ty: (), cond: Box::new(cond), on_true: Box::new(on_true), on_false: Box::new(on_false) }, n, o),
    ensures
        o matches Expr::Case { cond: oc, clauses, .. } && {
            &&& desugars_to(cond, n, *oc)
            &&& clauses@.len() == 2
            &&& is_nullary_pat(clauses@[0].0, true_name())
            &&& desugars_to(on_true, n + fresh_expr(cond), clauses@[0].1)
            &&& is_nullary_pat(clauses@[1].0, false_name())
            &&& desugars_to(on_false, n + fresh_expr(cond) + fresh_expr(on_true), clauses@[1].1)
        },
{
}

/// `fun f p1 p2 = body` becomes `val rec f = fn a1 => case a1 of p1 =>
/// fn a2 => case a2 of p2 => body'`, where `body'` is the desugared body
/// and `a2`, `a1` are the next two fresh names, in that order.
pub proof fn lemma_curried_fun(name: Symbol, params: Vec<Pattern<()>>, expr: Expr<()>, n: int, o: Statement<()>)
    requires
        params@.len() == 2,
        stmt_desugars_to(Statement::Fun { name, params, expr }, n, o),
    ensures
        o matches Statement::Val { rec, pattern, expr: f } && {
            let m = n + fresh_expr(expr);
            &&& rec
            &&& pattern == Pattern::Variable { name, ty: () }
            &&& f matches Expr::Fn { param: a1, body: b1, .. }
            &&& a1.0@ == arg_tag() && a1.1 == m + 1
            &&& *b1 matches Expr::Case { cond: c1, clauses: k1, .. }
            &&& *c1 == Expr::Sym { ty: (), name: a1 }
            &&& k1@.len() == 1 && k1@[0].0 == params@[0]
            &&& k1@[0].1 matches Expr::Fn { param: a2, body: b2, .. }
            &&& a2.0@ == arg_tag() && a2.1 == m
            &&& *b2 matches Expr::Case { cond: c2, clauses: k2, .. }
            &&& *c2 == Expr::Sym { ty: (), name: a2 }
            &&& k2@.len() == 1 && k2@[0].0 == params@[1]
            &&& desugars_to(expr, n, k2@[0].1)
        },
{
    let ps = params@;
    let f = o->Val_expr;
    let m = n + fresh_expr(expr);
    assert(curried(ps, 0, m, f));
    let k1 = f->Fn_body->Case_clauses@;
    assert(curried(ps, 1, m, k1[0].1));
    let k2 = k1[0].1->Fn_body->Case_clauses@;
    assert(curried(ps, 2, m, k2[0].1));
    assert(innermost(ps, 1, k1[0].1) == innermost(ps, 2, k2[0].1));
}

proof fn lemma_core_exprs_from_each(s: Seq<Expr<()>>, k: int)
    requires
        0 <= k <= s.len(),
        forall|j: int| 0 <= j < k ==> crate::ast::is_core_expr(#[trigger] s[j]),
    ensures
        crate::ast::is_core_exprs(s, k),
    decreases k,
{
    if k > 0 {
        lemma_core_exprs_from_each(s, k - 1);
    }
}

proof fn lemma_core_clauses_from_each(s: Seq<(Pattern<()>, Expr<()>)>, k: int)
    requires
        0 <= k <= s.len(),
        forall|j: int| 0 <= j < k ==> crate::ast::is_core_expr(#[trigger] s[j].1),
    ensures
        crate::ast::is_core_clauses(s, k),
    decreases k,
{
    if k > 0 {
        lemma_core_clauses_from_each(s, k - 1);
    }
}

proof fn lemma_core_stmts_from_each(s: Seq<Statement<()>>, k: int)
    requires
        0 <= k <= s.len(),
        forall|j: int| 0 <= j < k ==> crate::ast::is_core_stmt(#[trigger] s[j]),
    ensures
        crate::ast::is_core_stmts(s, k),
    decreases k,
{
    if k > 0 {
        lemma_core_stmts_from_each(s, k - 1);
    }
}

proof fn lemma_curried_core(ps: Seq<Pattern<()>>, j: int, m: int, f: Expr<()>)
    requires
        0 <= j <= ps.len(),
        curried(ps, j, m, f),
        crate::ast::is_core_expr(innermost(ps, j, f)),
    ensures
        crate::ast::is_core_expr(f),
    decreases ps.len() - j,
{
    if j < ps.len() {
        let body = *f->Fn_body;
        let clauses = body->Case_clauses@;
        assert(innermost(ps, j, f) == innermost(ps, j + 1, clauses[0].1));
        lemma_curried_core(ps, j + 1, m, clauses[0].1);
        lemma_core_clauses_from_each(clauses, 1);
        assert(crate::ast::is_core_expr(*body->Case_cond));
        assert(crate::ast::is_core_expr(body));
    }
}

/// What desugaring yields is canonical: no conditional and no function
/// definition is left anywhere in it.
pub proof fn lemma_desugar_yields_core_expr(e: Expr<()>, n: int, o: Expr<()>)
    requires
        desugars_to(e, n, o),
    ensures
        crate::ast::is_core_expr(o),
    decreases e, 0int,
{
    match e {
        Expr::Binds { binds, ret, .. } => {
            let s = binds@;
            let ob = o->Binds_binds@;
            assert(stmts_desugar_to(s, n, ob));
            assert forall|j: int| 0 <= j < ob.len() implies crate::ast::is_core_stmt(#[trigger] ob[j]) by {
                assert(decreases_to!(e => e->Binds_binds));
                assert(stmt_desugars_to(s[j], n + fresh_stmts(s, j), ob[j]));
                lemma_desugar_yields_core_stmt(s[j], n + fresh_stmts(s, j), ob[j]);
            }
            lemma_core_stmts_from_each(ob, ob.len() as int);
            lemma_desugar_yields_core_expr(*ret, n + fresh_stmts(s, s.len() as int), *o->Binds_ret);
        },
        Expr::BinOp { l, r, .. } => {
            lemma_desugar_yields_core_expr(*l, n, *o->BinOp_l);
            lemma_desugar_yields_core_expr(*r, n + fresh_expr(*l), *o->BinOp_r);
        },
        Expr::Fn { body, .. } => {
            lemma_desugar_yields_core_expr(*body, n, *o->Fn_body);
        },
        Expr::App { fun, arg, .. } => {
            lemma_desugar_yields_core_expr(*fun, n, *o->App_fun);
            lemma_desugar_yields_core_expr(*arg, n + fresh_expr(*fun), *o->App_arg);
        },
        Expr::If { cond, on_true, on_false, .. } => {
            let oc = o->Case_clauses@;
            lemma_desugar_yields_core_expr(*cond, n, *o->Case_cond);
            lemma_desugar_yields_core_expr(*on_true, n + fresh_expr(*cond), oc[0].1);
            lemma_desugar_yields_core_expr(*on_false, n + fresh_expr(*cond) + fresh_expr(*on_true), oc[1].1);
            lemma_core_clauses_from_each(oc, 2);
        },
        Expr::Case { cond, clauses, .. } => {
            let s = clauses@;
            let oc = o->Case_clauses@;
            lemma_desugar_yields_core_expr(*cond, n, *o->Case_cond);
            assert(clauses_desugar_to(s, n + fresh_expr(*cond), oc));
            assert forall|j: int| 0 <= j < oc.len() implies crate::ast::is_core_expr(#[trigger] oc[j].1) by {
                assert(decreases_to!(e => e->Case_clauses));
                assert(decreases_to!(s[j] => s[j].1));
                assert(oc[j].0 == s[j].0 && desugars_to(s[j].1, n + fresh_expr(*cond) + fresh_clauses(s, j), oc[j].1));
                lemma_desugar_yields_core_expr(s[j].1, n + fresh_expr(*cond) + fresh_clauses(s, j), oc[j].1);
            }
            lemma_core_clauses_from_each(oc, oc.len() as int);
        },
        Expr::Tuple { tuple, .. } => {
            let s = tuple@;
            let ot = o->Tuple_tuple@;
            assert(exprs_desugar_to(s, n, ot));
            assert forall|j: int| 0 <= j < ot.len() implies crate::ast::is_core_expr(#[trigger] ot[j]) by {
                assert(decreases_to!(e => e->Tuple_tuple));
                assert(desugars_to(s[j], n + fresh_exprs(s, j), ot[j]));
                lemma_desugar_yields_core_expr(s[j], n + fresh_exprs(s, j), ot[j]);
            }
            lemma_core_exprs_from_each(ot, ot.len() as int);
        },
        Expr::Constructor { arg, .. } => {
            if let Some(a) = arg {
                lemma_desugar_yields_core_expr(*a, n, *o->Constructor_arg->0);
            }
        },
        Expr::Sym { .. } => {},
        Expr::Lit { .. } => {},
    }
}

pub proof fn lemma_desugar_yields_core_stmt(st: Statement<()>, n: int, o: Statement<()>)
    requires
        stmt_desugars_to(st, n, o),
    ensures
        crate::ast::is_core_stmt(o),
    decreases st, 0int,
{
    match st {
        Statement::Datatype { .. } => {},
        Statement::Val { expr, .. } => {
            lemma_desugar_yields_core_expr(expr, n, o->Val_expr);
        },
        Statement::Fun { params, expr, .. } => {
            let f = o->Val_expr;
            lemma_desugar_yields_core_expr(expr, n, innermost(params@, 0, f));
            lemma_curried_core(params@, 0, n + fresh_expr(expr), f);
        },
    }
}

/// A desugared program is canonical.
pub proof fn lemma_desugar_yields_core(s: Seq<Statement<()>>, n: int, o: Seq<Statement<()>>)
    requires
        stmts_desugar_to(s, n, o),
    ensures
        crate::ast::is_core_stmts(o, o.len() as int),
{
    assert forall|j: int| 0 <= j < o.len() implies crate::ast::is_core_stmt(#[trigger] o[j]) by {
        lemma_desugar_yields_core_stmt(s[j], n + fresh_stmts(s, j), o[j]);
    }
    lemma_core_stmts_from_each(o, o.len() as int);
}

/// The desugaring pass: removes conditionals and curried function
/// definitions, and leaves every other construct as it is.
pub struct Desugar {
    id: Id,
}

impl Desugar {
    /// The next identity that a synthesised name will take.
    pub closed spec fn counter(&self) -> u64 {
        self.id.next_id
    }

    pub fn new(id: Id) -> (r: Desugar)
        ensures
            r.counter() == id.next_id,
    {
        Desugar { id }
    }

    pub fn gensym(&mut self) -> (r: Symbol)
        requires
            old(self).counter() < u64::MAX,
        ensures
            r.0@ == arg_tag(),
            r.1 == old(self).counter(),
            final(self).counter() == old(self).counter() + 1,
    {
        let id = self.id.next();
        let name = "#arg".to_string();
        proof {
            reveal_strlit("#arg");
            assert(name@ =~= arg_tag());
        }
        Symbol(name, id)
    }

    /// Desugars a whole program, statement by statement.
    pub fn transform_ast(&mut self, ast: AST<()>) -> (r: AST<()>)
        requires
            old(self).counter() + fresh_stmts(ast.0@, ast.0@.len() as int) <= u64::MAX,
        ensures
            stmts_desugar_to(ast.0@, old(self).counter() as int, r.0@),
            final(self).counter() == old(self).counter() + fresh_stmts(ast.0@, ast.0@.len() as int),
            crate::ast::is_core_stmts(r.0@, r.0@.len() as int),
    {
        let ghost n = self.counter() as int;
        let ghost src = ast.0@;
        let out = self.transform_statements(ast.0);
        proof {
            lemma_desugar_yields_core(src, n, out@);
        }
        AST(out)
    }

    fn transform_statements(&mut self, stmts: Vec<Statement<()>>) -> (r: Vec<Statement<()>>)
        requires
            old(self).counter() + fresh_stmts(stmts@, stmts@.len() as int) <= u64::MAX,
        ensures
            stmts_desugar_to(stmts@, old(self).counter() as int, r@),
            final(self).counter() == old(self).counter() + fresh_stmts(stmts@, stmts@.len() as int),
        decreases stmts@, 4int,
    {
        let ghost src = stmts@;
        let ghost whole = stmts;
        let ghost n0 = self.counter() as int;
        let mut rest = stmts;
        let mut out: Vec<Statement<()>> = Vec::new();
        while rest.len() > 0
            invariant
                whole == stmts,
                out@.len() <= src.len(),
                rest@ == src.subrange(out@.len() as int, src.len() as int),
                self.counter() == n0 + fresh_stmts(src, out@.len() as int),
                n0 + fresh_stmts(src, src.len() as int) <= u64::MAX,
                src == whole@,
                forall|j: int| 0 <= j < out@.len() ==>
                    stmt_desugars_to(src[j], n0 + fresh_stmts(src, j), #[trigger] out@[j]),
            decreases rest@.len(),
        {
            let ghost i = out@.len() as int;
            let st = rest.remove(0);
            assert(st == src[i]);
            assert(decreases_to!(whole@ => whole@[i]));
            proof {
                lemma_fresh_stmts_mono(src, i + 1, src.len() as int);
            }
            let o = self.transform_statement(st);
            out.push(o);
        }
        out
    }

    fn transform_val(&mut self, rec: bool, pattern: Pattern<()>, expr: Expr<()>) -> (r: Statement<()>)
        requires
            old(self).counter() + fresh_expr(expr) <= u64::MAX,
        ensures
            stmt_desugars_to(Statement::Val { rec, pattern, expr }, old(self).counter() as int, r),
            final(self).counter() == old(self).counter() + fresh_expr(expr),
        decreases expr, 3int,
    {
        let pattern = self.transform_pattern(pattern);
        let expr = self.transform_expr(expr);
        Statement::Val { rec, pattern, expr }
    }

    /// `fun name p1 .. pn = body` becomes `val rec name = fn a1 => case a1 of
    /// p1 => .. fn an => case an of pn => body`, with fresh `a1 .. an` drawn
    /// from the last parameter to the first.
    fn transform_fun(&mut self, name: Symbol, params: Vec<Pattern<()>>, expr: Expr<()>) -> (r: Statement<()>)
        requires
            old(self).counter() + params@.len() + fresh_expr(expr) <= u64::MAX,
        ensures
            stmt_desugars_to(Statement::Fun { name, params, expr }, old(self).counter() as int, r),
            final(self).counter() == old(self).counter() + params@.len() + fresh_expr(expr),
        decreases expr, 3int,
    {
        let ghost ps = params@;
        let ghost n0 = self.counter() as int;
        let body = self.transform_expr(expr);
        let ghost m = self.counter() as int;
        let ghost ob = body;
        let mut fun = body;
        let mut rest = params;
        while rest.len() > 0
            invariant
                rest@.len() <= ps.len(),
                rest@ == ps.subrange(0, rest@.len() as int),
                self.counter() == m + (ps.len() - rest@.len()),
                m + ps.len() <= u64::MAX,
                curried(ps, rest@.len() as int, m, fun),
                innermost(ps, rest@.len() as int, fun) == ob,
            decreases rest@.len(),
        {
            let ghost j = rest@.len() - 1;
            let param = rest.pop().unwrap();
            assert(rest@ =~= ps.subrange(0, j));
            assert(param == ps[j]);
            let param_sym = self.gensym();
            let ghost prev = fun;
            let clauses = vec![(param, fun)];
            assert(clauses@[0].1 == prev);
            fun = Expr::Fn {
                ty: (),
                param: param_sym.duplicate(),
                body: Box::new(
                    Expr::Case {
                        ty: (),
                        cond: Box::new(Expr::Sym { name: param_sym, ty: () }),
                        clauses,
                    },
                ),
            };
            assert(innermost(ps, j, fun) == innermost(ps, j + 1, prev));
        }
        Statement::Val { rec: true, pattern: Pattern::Variable { name, ty: () }, expr: fun }
    }

    /// Patterns need no rewriting.
    fn transform_pattern(&mut self, pattern: Pattern<()>) -> (r: Pattern<()>)
        ensures
            r == pattern,
            final(self).counter() == old(self).counter(),
    {
        pattern
    }

    fn transform_expr(&mut self, expr: Expr<()>) -> (r: Expr<()>)
        requires
            old(self).counter() + fresh_expr(expr) <= u64::MAX,
        ensures
            desugars_to(expr, old(self).counter() as int, r),
            final(self).counter() == old(self).counter() + fresh_expr(expr),
        decreases expr, 2int,
    {
        let ghost whole = expr;
        match expr {
            Expr::Binds { ty, binds, ret } => self.transform_binds(ty, binds, ret, Ghost(whole)),
            Expr::BinOp { ty, op, l, r } => {
                let l = self.transform_expr(*l);
                let r = self.transform_expr(*r);
                Expr::BinOp { ty, op, l: Box::new(l), r: Box::new(r) }
            },
            Expr::Fn { ty, param, body } => {
                let body = self.transform_expr(*body);
                Expr::Fn { ty, param, body: Box::new(body) }
            },
            Expr::App { ty, fun, arg } => {
                let fun = self.transform_expr(*fun);
                let arg = self.transform_expr(*arg);
                Expr::App { ty, fun: Box::new(fun), arg: Box::new(arg) }
            },
            Expr::If { ty, cond, on_true, on_false } => self.transform_if(ty, cond, on_true, on_false, Ghost(whole)),
            Expr::Case { ty, cond, clauses } => self.transform_case(ty, cond, clauses, Ghost(whole)),
            Expr::Tuple { ty, tuple } => Expr::Tuple { ty, tuple: self.transform_exprs(tuple) },
            Expr::Constructor { ty, arg, name } => {
                let arg = match arg {
                    Some(a) => Some(Box::new(self.transform_expr(*a))),
                    None => None,
                };
                Expr::Constructor { ty, arg, name }
            },
            Expr::Sym { ty, name } => Expr::Sym { ty, name },
            Expr::Lit { ty, value } => Expr::Lit { ty, value },
        }
    }

    fn transform_binds(
        &mut self,
        ty: (),
        binds: Vec<Statement<()>>,
        ret: Box<Expr<()>>,
        Ghost(whole): Ghost<Expr<()>>,
    ) -> (r: Expr<()>)
        requires
            whole == (Expr::Binds { ty, binds, ret }),
            old(self).counter() + fresh_expr(whole) <= u64::MAX,
        ensures
            desugars_to(whole, old(self).counter() as int, r),
            final(self).counter() == old(self).counter() + fresh_expr(whole),
        decreases whole, 1int,
    {
        let binds = self.transform_statements(binds);
        let ret = self.transform_expr(*ret);
        Expr::Binds { ty, binds, ret: Box::new(ret) }
    }

    /// `if c then t else e` becomes `case c of true => t | false => e`.
    fn transform_if(
        &mut self,
        ty: (),
        cond: Box<Expr<()>>,
        on_true: Box<Expr<()>>,
        on_false: Box<Expr<()>>,
        Ghost(whole): Ghost<Expr<()>>,
    ) -> (r: Expr<()>)
        requires
            whole == (Expr::If { ty, cond, on_true, on_false }),
            old(self).counter() + fresh_expr(whole) <= u64::MAX,
        ensures
            desugars_to(whole, old(self).counter() as int, r),
            final(self).counter() == old(self).counter() + fresh_expr(whole),
        decreases whole, 1int,
    {
        let cond = self.transform_expr(*cond);
        let on_true = self.transform_expr(*on_true);
        let on_false = self.transform_expr(*on_false);
        let t = Symbol::new("true");
        let f = Symbol::new("false");
        proof {
            reveal_strlit("true");
            reveal_strlit("false");
            assert(t.0@ =~= true_name());
            assert(f.0@ =~= false_name());
        }
        Expr::Case {
            ty,
            cond: Box::new(cond),
            clauses: vec![
                (Pattern::Constructor { ty: (), arg: None, name: t }, on_true),
                (Pattern::Constructor { ty: (), arg: None, name: f }, on_false),
            ],
        }
    }

    fn transform_case(
        &mut self,
        ty: (),
        cond: Box<Expr<()>>,
        clauses: Vec<(Pattern<()>, Expr<()>)>,
        Ghost(whole): Ghost<Expr<()>>,
    ) -> (r: Expr<()>)
        requires
            whole == (Expr::Case { ty, cond, clauses }),
            old(self).counter() + fresh_expr(whole) <= u64::MAX,
        ensures
            desugars_to(whole, old(self).counter() as int, r),
            final(self).counter() == old(self).counter() + fresh_expr(whole),
        decreases whole, 1int,
    {
        let ghost c0 = self.counter() as int;
        let cond = self.transform_expr(*cond);
        let ghost src = clauses@;
        let ghost n0 = self.counter() as int;
        let mut rest = clauses;
        let mut out: Vec<(Pattern<()>, Expr<()>)> = Vec::new();
        while rest.len() > 0
            invariant
                out@.len() <= src.len(),
                rest@ == src.subrange(out@.len() as int, src.len() as int),
                self.counter() == n0 + fresh_clauses(src, out@.len() as int),
                n0 + fresh_clauses(src, src.len() as int) <= u64::MAX,
                whole is Case,
                desugars_to(*whole->Case_cond, c0, cond),
                n0 == c0 + fresh_expr(*whole->Case_cond),
                whole->Case_clauses@ == src,
                forall|j: int| 0 <= j < out@.len() ==> (#[trigger] out@[j]).0 == src[j].0
                    && desugars_to(src[j].1, n0 + fresh_clauses(src, j), out@[j].1),
            decreases rest@.len(),
        {
            let ghost i = out@.len() as int;
            let (p, e) = rest.remove(0);
            assert((p, e) == src[i]);
            assert(decreases_to!(whole->Case_clauses@ => whole->Case_clauses@[i]));
            assert(decreases_to!(whole->Case_clauses@[i] => whole->Case_clauses@[i].1));
            assert(decreases_to!(whole->Case_clauses => whole->Case_clauses@));
            assert(decreases_to!(whole => whole->Case_clauses));
            assert(decreases_to!(whole => e));
            proof {
                lemma_fresh_clauses_mono(src, i + 1, src.len() as int);
            }
            let p = self.transform_pattern(p);
            let e = self.transform_expr(e);
            out.push((p, e));
        }
        assert(clauses_desugar_to(src, n0, out@));
        assert(fresh_expr(whole) == fresh_expr(*whole->Case_cond) + fresh_clauses(src, src.len() as int));
        Expr::Case { ty, cond: Box::new(cond), clauses: out }
    }

    fn transform_exprs(&mut self, exprs: Vec<Expr<()>>) -> (r: Vec<Expr<()>>)
        requires
            old(self).counter() + fresh_exprs(exprs@, exprs@.len() as int) <= u64::MAX,
        ensures
            exprs_desugar_to(exprs@, old(self).counter() as int, r@),
            final(self).counter() == old(self).counter() + fresh_exprs(exprs@, exprs@.len() as int),
        decreases exprs@, 1int,
    {
        let ghost src = exprs@;
        let ghost whole = exprs;
        let ghost n0 = self.counter() as int;
        let mut rest = exprs;
        let mut out: Vec<Expr<()>> = Vec::new();
        while rest.len() > 0
            invariant
                whole == exprs,
                out@.len() <= src.len(),
                rest@ == src.subrange(out@.len() as int, src.len() as int),
                self.counter() == n0 + fresh_exprs(src, out@.len() as int),
                n0 + fresh_exprs(src, src.len() as int) <= u64::MAX,
                src == whole@,
                forall|j: int| 0 <= j < out@.len() ==>
                    desugars_to(src[j], n0 + fresh_exprs(src, j), #[trigger] out@[j]),
            decreases rest@.len(),
        {
            let ghost i = out@.len() as int;
            let e = rest.remove(0);
            assert(e == src[i]);
            assert(decreases_to!(whole@ => whole@[i]));
            proof {
                lemma_fresh_exprs_mono(src, i + 1, src.len() as int);
            }
            let o = self.transform_expr(e);
            out.push(o);
        }
        out
    }

    fn transform_statement(&mut self, stmt: Statement<()>) -> (r: Statement<()>)
        requires
            old(self).counter() + fresh_stmt(stmt) <= u64::MAX,
        ensures
            stmt_desugars_to(stmt, old(self).counter() as int, r),
            final(self).counter() == old(self).counter() + fresh_stmt(stmt),
        decreases stmt, 4int,
    {
        match stmt {
            Statement::Datatype { name, constructors } => Statement::Datatype { name, constructors },
            Statement::Val { rec, pattern, expr } => self.transform_val(rec, pattern, expr),
            Statement::Fun { name, params, expr } => self.transform_fun(name, params, expr),
        }
    }
}

} // verus!
