use vstd::prelude::*;
use crate::ast::{self, lemma_first_pos_bounds, SymbolTable, Type};
use crate::hir::{Expr, HTy, Pattern, Val, HIR};
use crate::prim::{Id, Symbol};

verus! {

broadcast use {vstd::std_specs::vec::group_vec_axioms, vstd::seq::group_seq_axioms};

/// `h` is the lowering of `ty`, resolving datatypes among the first `lim`.
pub open spec fn lowers_ty(tbl: SymbolTable, ty: Type, lim: nat, h: HTy) -> bool
    decreases lim, ty,
{
    match ty {
        Type::Variable(_) => false,
        Type::Int => h is Int,
        Type::Real => h is Real,
        Type::Fun(a, b) => {
            &&& h matches HTy::Fun(ha, hb)
            &&& lowers_ty(tbl, *a, lim, *ha)
            &&& lowers_ty(tbl, *b, lim, *hb)
        },
        Type::Tuple(tys) => {
            &&& h matches HTy::Tuple(hs)
            &&& hs@.len() == tys@.len()
            &&& forall|i: int| 0 <= i < tys@.len() ==> lowers_ty(tbl, #[trigger] tys@[i], lim, hs@[i])
        },
        Type::Datatype(name) => {
            let t = tbl.type_index(name);
            let cs = tbl.types@[t].constructors@;
            &&& 0 <= t < lim
            &&& h matches HTy::Datatype(ds)
            &&& ds@.len() == cs.len()
            &&& forall|c: int| 0 <= c < cs.len() ==> {
                &&& (#[trigger] ds@[c]).0 == c
                &&& match cs[c].1 {
                    None => ds@[c].1 is None,
                    Some(p) => ds@[c].1 matches Some(hp) && lowers_ty(tbl, p, t as nat, hp),
                }
            }
        },
    }
}

/// `h` is the lowering of `ty` against the whole table.
pub open spec fn ty_of(tbl: SymbolTable, ty: Type, h: HTy) -> bool {
    lowers_ty(tbl, ty, tbl.types@.len(), h)
}

pub open spec fn ty_ok(tbl: SymbolTable, ty: Type) -> bool {
    tbl.ty_ok(ty, tbl.types@.len())
}

pub open spec fn wildcard_name() -> Seq<char> {
    seq!['_']
}

/// Name tag of the bindings that lowering synthesises.
pub open spec fn g_tag() -> Seq<char> {
    seq!['#', 'g']
}

pub open spec fn pat_ok(tbl: SymbolTable, p: ast::Pattern<Type>) -> bool {
    match p {
        ast::Pattern::Constant { ty, .. } => ty_ok(tbl, ty),
        ast::Pattern::Constructor { name, arg, ty } => {
            &&& ty_ok(tbl, ty)
            &&& tbl.discriminant(name) >= 0
            &&& arg matches Some((t, _)) ==> ty_ok(tbl, t)
        },
        ast::Pattern::Tuple { tuple, ty } => {
            &&& ty_ok(tbl, ty)
            &&& tuple@.len() < u32::MAX
            &&& forall|i: int| 0 <= i < tuple@.len() ==> ty_ok(tbl, (#[trigger] tuple@[i]).0)
        },
        ast::Pattern::Variable { ty, .. } => ty_ok(tbl, ty),
        ast::Pattern::Wildcard { ty } => ty_ok(tbl, ty),
    }
}

/// `q` is the lowering of pattern `p`.
pub open spec fn lowers_pat(tbl: SymbolTable, p: ast::Pattern<Type>, q: Pattern) -> bool {
    match p {
        ast::Pattern::Constant { value, ty } => {
            &&& q matches Pattern::Constant { value: v, ty: h }
            &&& v == value
            &&& ty_of(tbl, ty, h)
        },
        ast::Pattern::Constructor { name, arg, ty } => {
            &&& q matches Pattern::Constructor { descriminant, arg: qa, ty: h }
            &&& descriminant == tbl.discriminant(name)
            &&& ty_of(tbl, ty, h)
            &&& match arg {
                None => qa is None,
                Some((t, s)) => qa matches Some((ht, qs)) && qs == s && ty_of(tbl, t, ht),
            }
        },
        ast::Pattern::Tuple { tuple, .. } => {
            &&& q matches Pattern::Tuple { tys, tuple: syms }
            &&& tys@.len() == tuple@.len()
            &&& syms@.len() == tuple@.len()
            &&& forall|i: int| 0 <= i < tuple@.len() ==> (#[trigger] syms@[i]) == tuple@[i].1 && ty_of(tbl, tuple@[i].0, tys@[i])
        },
        ast::Pattern::Variable { name, ty } => {
            &&& q matches Pattern::Var { name: n, ty: h }
            &&& n == name
            &&& ty_of(tbl, ty, h)
        },
        ast::Pattern::Wildcard { ty } => {
            &&& q matches Pattern::Var { name: n, ty: h }
            &&& n.0@ == wildcard_name()
            &&& n.1 == 0
            &&& ty_of(tbl, ty, h)
        },
    }
}

/// How many fresh names lowering an expression takes.
pub open spec fn lfresh_expr(e: ast::Expr<Type>) -> nat
    decreases e, 0int,
{
    match e {
        ast::Expr::Binds { binds, ret, .. } => lfresh_stmts(binds@, binds@.len() as int) + lfresh_expr(*ret),
        ast::Expr::BinOp { l, r, .. } => lfresh_expr(*l) + lfresh_expr(*r),
        ast::Expr::Fn { body, .. } => lfresh_expr(*body),
        ast::Expr::App { fun, arg, .. } => lfresh_expr(*fun) + lfresh_expr(*arg),
        ast::Expr::If { cond, on_true, on_false, .. } => lfresh_expr(*cond) + lfresh_expr(*on_true) + lfresh_expr(*on_false),
        ast::Expr::Case { cond, clauses, .. } => lfresh_expr(*cond) + lfresh_clauses(clauses@, clauses@.len() as int),
        ast::Expr::Tuple { tuple, .. } => lfresh_exprs(tuple@, tuple@.len() as int),
        ast::Expr::Constructor { arg, .. } => match arg {
            Some(a) => lfresh_expr(*a),
            None => 0,
        },
        ast::Expr::Sym { .. } => 0,
        ast::Expr::Lit { .. } => 0,
    }
}

pub open spec fn lfresh_exprs(s: Seq<ast::Expr<Type>>, k: int) -> nat
    decreases s, k,
{
    if k <= 0 || k > s.len() {
        0
    } else {
        lfresh_exprs(s, k - 1) + lfresh_expr(s[k - 1])
    }
}

pub open spec fn lfresh_clauses(s: Seq<(ast::Pattern<Type>, ast::Expr<Type>)>, k: int) -> nat
    decreases s, k,
{
    if k <= 0 || k > s.len() {
        0
    } else {
        lfresh_clauses(s, k - 1) + lfresh_expr(s[k - 1].1)
    }
}

/// A variable pattern binds directly; every other pattern takes one
/// synthesised name.
pub open spec fn lfresh_stmt(st: ast::Statement<Type>) -> nat
    decreases st, 0int,
{
    match st {
        ast::Statement::Val { pattern, expr, .. } => lfresh_expr(expr) + if pattern is Variable {
            0nat
        } else {
            1nat
        },
        _ => 0,
    }
}

pub open spec fn lfresh_stmts(s: Seq<ast::Statement<Type>>, k: int) -> nat
    decreases s, k,
{
    if k <= 0 || k > s.len() {
        0
    } else {
        lfresh_stmts(s, k - 1) + lfresh_stmt(s[k - 1])
    }
}

/// How many bindings one statement lowers to.
pub open spec fn nvals(st: ast::Statement<Type>) -> nat {
    match st {
        ast::Statement::Val { pattern, .. } => match pattern {
            ast::Pattern::Tuple { .. } => pattern.bound().len() + 1,
            ast::Pattern::Constructor { .. } => pattern.bound().len() + 1,
            _ => 1,
        },
        _ => 0,
    }
}

/// Where the bindings of statement `k` start in the lowered sequence.
pub open spec fn val_offset(s: Seq<ast::Statement<Type>>, k: int) -> nat
    decreases k,
{
    if k <= 0 || k > s.len() {
        0
    } else {
        val_offset(s, k - 1) + nvals(s[k - 1])
    }
}

/// The expression can be lowered: canonical, fully resolved, and every
/// constructor it names belongs to its datatype.
pub open spec fn expr_ok(tbl: SymbolTable, e: ast::Expr<Type>) -> bool
    decreases e, 0int,
{
    match e {
        ast::Expr::Binds { ty, binds, ret } => {
            &&& ty_ok(tbl, ty)
            &&& forall|j: int| 0 <= j < binds@.len() ==> stmt_ok(tbl, #[trigger] binds@[j])
            &&& expr_ok(tbl, *ret)
        },
        ast::Expr::BinOp { ty, l, r, .. } => ty_ok(tbl, ty) && expr_ok(tbl, *l) && expr_ok(tbl, *r),
        ast::Expr::Fn { ty, body, .. } => ty_ok(tbl, ty) && ty is Fun && expr_ok(tbl, *body),
        ast::Expr::App { ty, fun, arg } => ty_ok(tbl, ty) && expr_ok(tbl, *fun) && expr_ok(tbl, *arg),
        ast::Expr::If { .. } => false,
        ast::Expr::Case { ty, cond, clauses } => {
            &&& ty_ok(tbl, ty)
            &&& expr_ok(tbl, *cond)
            &&& forall|j: int| 0 <= j < clauses@.len() ==> pat_ok(tbl, (#[trigger] clauses@[j]).0) && expr_ok(tbl, clauses@[j].1)
        },
        ast::Expr::Tuple { ty, tuple } => {
            &&& ty_ok(tbl, ty)
            &&& ty is Tuple
            &&& forall|j: int| 0 <= j < tuple@.len() ==> expr_ok(tbl, #[trigger] tuple@[j])
        },
        ast::Expr::Constructor { ty, arg, name } => {
            &&& ty_ok(tbl, ty)
            &&& tbl.discriminant(name) >= 0
            &&& match arg {
                Some(a) => expr_ok(tbl, *a),
                None => true,
            }
        },
        ast::Expr::Sym { ty, .. } => ty_ok(tbl, ty),
        ast::Expr::Lit { ty, .. } => ty_ok(tbl, ty),
    }
}

pub open spec fn stmt_ok(tbl: SymbolTable, st: ast::Statement<Type>) -> bool
    decreases st, 0int,
{
    match st {
        ast::Statement::Datatype { .. } => true,
        ast::Statement::Val { pattern, expr, .. } => pat_ok(tbl, pattern) && expr_ok(tbl, expr),
        ast::Statement::Fun { .. } => false,
    }
}

/// `h` is the tuple type of the variables `bs`.
pub open spec fn tuple_ty(tbl: SymbolTable, bs: Seq<(Symbol, Type)>, h: HTy) -> bool {
    &&& h matches HTy::Tuple(tys)
    &&& tys@.len() == bs.len()
    &&& forall|i: int| 0 <= i < bs.len() ==> ty_of(tbl, (#[trigger] bs[i]).1, tys@[i])
}

/// `o` is the binding of variable `bs[i]` to component `i` of the
/// synthesised tuple `tmp`.
pub open spec fn projects(tbl: SymbolTable, bs: Seq<(Symbol, Type)>, i: int, rec: bool, tmp: Symbol, o: Val) -> bool {
    &&& o.name == bs[i].0
    &&& o.rec == rec
    &&& ty_of(tbl, bs[i].1, o.ty)
    &&& o.expr matches Expr::Proj { ty, index, tuple }
    &&& index == i
    &&& ty_of(tbl, bs[i].1, ty)
    &&& *tuple matches Expr::Sym { ty: tt, name: tn }
    &&& tn == tmp
    &&& tuple_ty(tbl, bs, tt)
}

/// The shape of `val p = e` for a tuple or constructor pattern `p`: a
/// synthesised binding `g = case e of p => (x1, .., xm)`, then `xi = #i g`
/// for each variable `xi` of `p`. The lowering of `e` itself is stated
/// by `lowers_stmt`.
pub open spec fn expansion(tbl: SymbolTable, rec: bool, p: ast::Pattern<Type>, g: int, o: Seq<Val>) -> bool {
    let bs = p.bound();
    &&& o.len() == bs.len() + 1
    &&& !o[0].rec
    &&& o[0].name.0@ == g_tag()
    &&& o[0].name.1 == g
    &&& tuple_ty(tbl, bs, o[0].ty)
    &&& o[0].expr matches Expr::Case { ty: cty, arms, .. }
    &&& tuple_ty(tbl, bs, cty)
    &&& arms@.len() == 1
    &&& lowers_pat(tbl, p, arms@[0].0)
    &&& arms@[0].1 matches Expr::Tuple { tys, tuple }
    &&& tys@.len() == bs.len()
    &&& tuple@.len() == bs.len()
    &&& forall|i: int| 0 <= i < bs.len() ==> {
        &&& ty_of(tbl, (#[trigger] bs[i]).1, tys@[i])
        &&& tuple@[i] matches Expr::Sym { ty, name }
        &&& name == bs[i].0
        &&& ty_of(tbl, bs[i].1, ty)
    }
    &&& forall|i: int| 0 <= i < bs.len() ==> projects(tbl, bs, i, rec, o[0].name, #[trigger] o[i + 1])
}

/// `o` is the lowering of `e` when the counter stands at `n`.
pub open spec fn lowers_expr(tbl: SymbolTable, e: ast::Expr<Type>, n: int, o: Expr) -> bool
    decreases e, 0int,
{
    match e {
        ast::Expr::Binds { ty, binds, ret } => {
            &&& o matches Expr::Binds { ty: h, binds: ob, ret: oret }
            &&& ty_of(tbl, ty, h)
            &&& lowers_stmts(tbl, binds@, n, ob@)
            &&& lowers_expr(tbl, *ret, n + lfresh_stmts(binds@, binds@.len() as int), *oret)
        },
        ast::Expr::BinOp { op, ty, l, r } => {
            &&& o matches Expr::BinOp { ty: h, name, l: ol, r: or }
            &&& name == op
            &&& ty_of(tbl, ty, h)
            &&& lowers_expr(tbl, *l, n, *ol)
            &&& lowers_expr(tbl, *r, n + lfresh_expr(*l), *or)
        },
        ast::Expr::Fn { ty, param, body } => {
            &&& ty matches Type::Fun(a, b)
            &&& o matches Expr::Fun { param: (pt, ps), body_ty, body: ob, captures }
            &&& ps == param
            &&& ty_of(tbl, *a, pt)
            &&& ty_of(tbl, *b, body_ty)
            &&& captures@.len() == 0
            &&& lowers_expr(tbl, *body, n, *ob)
        },
        ast::Expr::App { ty, fun, arg } => {
            &&& o matches Expr::App { ty: h, fun: of, arg: oa }
            &&& ty_of(tbl, ty, h)
            &&& lowers_expr(tbl, *fun, n, *of)
            &&& lowers_expr(tbl, *arg, n + lfresh_expr(*fun), *oa)
        },
        ast::Expr::If { .. } => false,
        ast::Expr::Case { ty, cond, clauses } => {
            &&& o matches Expr::Case { ty: h, expr: oc, arms }
            &&& ty_of(tbl, ty, h)
            &&& lowers_expr(tbl, *cond, n, *oc)
            &&& arms@.len() == clauses@.len()
            &&& forall|j: int| 0 <= j < clauses@.len() ==> {
                &&& lowers_pat(tbl, (#[trigger] clauses@[j]).0, arms@[j].0)
                &&& lowers_expr(tbl, clauses@[j].1, n + lfresh_expr(*cond) + lfresh_clauses(clauses@, j), arms@[j].1)
            }
        },
        ast::Expr::Tuple { ty, tuple } => {
            &&& ty matches Type::Tuple(ts)
            &&& o matches Expr::Tuple { tys, tuple: ot }
            &&& tys@.len() == ts@.len()
            &&& forall|i: int| 0 <= i < ts@.len() ==> ty_of(tbl, #[trigger] ts@[i], tys@[i])
            &&& ot@.len() == tuple@.len()
            &&& forall|j: int| 0 <= j < tuple@.len() ==> lowers_expr(tbl, #[trigger] tuple@[j], n + lfresh_exprs(tuple@, j), ot@[j])
        },
        ast::Expr::Constructor { ty, arg, name } => {
            &&& o matches Expr::Constructor { ty: h, arg: oa, descriminant }
            &&& ty_of(tbl, ty, h)
            &&& descriminant == tbl.discriminant(name)
            &&& match arg {
                Some(a) => oa matches Some(b) && lowers_expr(tbl, *a, n, *b),
                None => oa is None,
            }
        },
        ast::Expr::Sym { ty, name } => {
            &&& o matches Expr::Sym { ty: h, name: on }
            &&& on == name
            &&& ty_of(tbl, ty, h)
        },
        ast::Expr::Lit { ty, value } => {
            &&& o matches Expr::Lit { ty: h, value: v }
            &&& v == value
            &&& ty_of(tbl, ty, h)
        },
    }
}

/// `o` is what statement `st` lowers to when the counter stands at `n`.
pub open spec fn lowers_stmt(tbl: SymbolTable, st: ast::Statement<Type>, n: int, o: Seq<Val>) -> bool
    decreases st, 0int,
{
    match st {
        ast::Statement::Datatype { .. } => o.len() == 0,
        ast::Statement::Fun { .. } => false,
        ast::Statement::Val { rec, pattern, expr } => match pattern {
            ast::Pattern::Variable { name, ty } => {
                &&& o.len() == 1
                &&& o[0].name == name
                &&& o[0].rec == rec
                &&& ty_of(tbl, ty, o[0].ty)
                &&& lowers_expr(tbl, expr, n, o[0].expr)
            },
            ast::Pattern::Wildcard { ty } => {
                &&& o.len() == 1
                &&& !o[0].rec
                &&& o[0].name.0@ == g_tag()
                &&& o[0].name.1 == n
                &&& ty_of(tbl, ty, o[0].ty)
                &&& lowers_expr(tbl, expr, n + 1, o[0].expr)
            },
            ast::Pattern::Constant { ty, .. } => {
                &&& o.len() == 1
                &&& !o[0].rec
                &&& o[0].name.0@ == g_tag()
                &&& o[0].name.1 == n
                &&& ty_of(tbl, ty, o[0].ty)
                &&& lowers_expr(tbl, expr, n + 1, o[0].expr)
            },
            _ => {
                &&& expansion(tbl, rec, pattern, n + lfresh_expr(expr), o)
                &&& lowers_expr(tbl, expr, n, *o[0].expr->Case_expr)
            },
        },
    }
}

pub open spec fn lowers_stmts(tbl: SymbolTable, s: Seq<ast::Statement<Type>>, n: int, o: Seq<Val>) -> bool
    decreases s, 0int,
{
    &&& o.len() == val_offset(s, s.len() as int)
    &&& forall|j: int| 0 <= j < s.len() ==> lowers_stmt(
        tbl,
        #[trigger] s[j],
        n + lfresh_stmts(s, j),
        o.subrange(val_offset(s, j) as int, val_offset(s, j + 1) as int),
    )
}

proof fn lemma_lfresh_exprs_mono(s: Seq<ast::Expr<Type>>, i: int, k: int)
    requires
        0 <= i <= k <= s.len(),
    ensures
        lfresh_exprs(s, i) <= lfresh_exprs(s, k),
    decreases k,
{
    if i < k {
        lemma_lfresh_exprs_mono(s, i, k - 1);
    }
}

proof fn lemma_lfresh_clauses_mono(s: Seq<(ast::Pattern<Type>, ast::Expr<Type>)>, i: int, k: int)
    requires
        0 <= i <= k <= s.len(),
    ensures
        lfresh_clauses(s, i) <= lfresh_clauses(s, k),
    decreases k,
{
    if i < k {
        lemma_lfresh_clauses_mono(s, i, k - 1);
    }
}

proof fn lemma_lfresh_stmts_mono(s: Seq<ast::Statement<Type>>, i: int, k: int)
    requires
        0 <= i <= k <= s.len(),
    ensures
        lfresh_stmts(s, i) <= lfresh_stmts(s, k),
    decreases k,
{
    if i < k {
        lemma_lfresh_stmts_mono(s, i, k - 1);
    }
}

proof fn lemma_val_offset_mono(s: Seq<ast::Statement<Type>>, i: int, k: int)
    requires
        0 <= i <= k <= s.len(),
    ensures
        val_offset(s, i) <= val_offset(s, k),
    decreases k,
{
    if i < k {
        lemma_val_offset_mono(s, i, k - 1);
    }
}

proof fn lemma_lowers_stmt_len(tbl: SymbolTable, st: ast::Statement<Type>, n: int, o: Seq<Val>)
    requires
        lowers_stmt(tbl, st, n, o),
    ensures
        o.len() == nvals(st),
{
}

/// The first `i` statements of `s` lowered to the start of `out`.
#[verifier::opaque]
pub open spec fn stmts_prefix_lowered(tbl: SymbolTable, s: Seq<ast::Statement<Type>>, n0: int, i: int, out: Seq<Val>) -> bool {
    &&& out.len() == val_offset(s, i)
    &&& forall|j: int| 0 <= j < i ==> lowers_stmt(
        tbl,
        #[trigger] s[j],
        n0 + lfresh_stmts(s, j),
        out.subrange(val_offset(s, j) as int, val_offset(s, j + 1) as int),
    )
}

#[verifier::spinoff_prover]
#[verifier::rlimit(100)]
proof fn lemma_stmts_step(
    tbl: SymbolTable,
    s: Seq<ast::Statement<Type>>,
    n0: int,
    i: int,
    prev: Seq<Val>,
    vs: Seq<Val>,
    out: Seq<Val>,
)
    requires
        0 <= i < s.len(),
        stmts_prefix_lowered(tbl, s, n0, i, prev),
        out == prev + vs,
        lowers_stmt(tbl, s[i], n0 + lfresh_stmts(s, i), vs),
    ensures
        stmts_prefix_lowered(tbl, s, n0, i + 1, out),
{
    reveal(stmts_prefix_lowered);
    lemma_lowers_stmt_len(tbl, s[i], n0 + lfresh_stmts(s, i), vs);
    assert forall|j: int| 0 <= j < i + 1 implies lowers_stmt(
        tbl,
        #[trigger] s[j],
        n0 + lfresh_stmts(s, j),
        out.subrange(val_offset(s, j) as int, val_offset(s, j + 1) as int),
    ) by {
        if j < i {
            lemma_val_offset_mono(s, j + 1, i);
            lemma_val_offset_mono(s, j, j + 1);
            assert(out.subrange(val_offset(s, j) as int, val_offset(s, j + 1) as int)
                =~= prev.subrange(val_offset(s, j) as int, val_offset(s, j + 1) as int));
        } else {
            assert(out.subrange(val_offset(s, j) as int, val_offset(s, j + 1) as int) =~= vs);
        }
    }
}

proof fn lemma_stmts_done(tbl: SymbolTable, s: Seq<ast::Statement<Type>>, n0: int, out: Seq<Val>)
    requires
        stmts_prefix_lowered(tbl, s, n0, s.len() as int, out),
    ensures
        lowers_stmts(tbl, s, n0, out),
{
    reveal(stmts_prefix_lowered);
}

/// `val (x1, .., xm) = e` lowers to a synthesised `g = case e' of (x1, ..,
/// xm) => (x1, .., xm)`, with `e'` the lowered `e`, followed by `xi = #i g`
/// for each `i`: the variable at position `i` of the pattern is bound to
/// component `i` of the matched tuple, whatever its name.
pub proof fn lemma_tuple_binding(
    tbl: SymbolTable,
    rec: bool,
    tuple: Vec<(Type, Symbol)>,
    ty: Type,
    expr: ast::Expr<Type>,
    n: int,
    o: Seq<Val>,
)
    requires
        lowers_stmt(tbl, ast::Statement::Val { rec, pattern: ast::Pattern::Tuple { tuple, ty }, expr }, n, o),
    ensures
        o.len() == tuple@.len() + 1,
        o[0].name.0@ == g_tag(),
        o[0].name.1 == n + lfresh_expr(expr),
        o[0].expr matches Expr::Case { expr: scrut, arms, .. } && {
            &&& lowers_expr(tbl, expr, n, *scrut)
            &&& arms@.len() == 1
            &&& arms@[0].0 matches Pattern::Tuple { tuple: vars, .. }
            &&& vars@.len() == tuple@.len()
            &&& arms@[0].1 matches Expr::Tuple { tuple: body, .. }
            &&& body@.len() == tuple@.len()
            &&& forall|i: int| 0 <= i < tuple@.len() ==> {
                &&& (#[trigger] vars@[i]) == tuple@[i].1
                &&& body@[i] matches Expr::Sym { name, .. } && name == tuple@[i].1
            }
        },
        forall|i: int| 0 <= i < tuple@.len() ==> {
            &&& (#[trigger] o[i + 1]).name == tuple@[i].1
            &&& o[i + 1].rec == rec
            &&& o[i + 1].expr matches Expr::Proj { index, tuple: t, .. }
            &&& index == i
            &&& *t matches Expr::Sym { name: g, .. } && g == o[0].name
        },
{
    let p = ast::Pattern::Tuple { tuple, ty };
    let bs = p.bound();
    assert forall|i: int| 0 <= i < tuple@.len() implies {
        &&& (#[trigger] o[i + 1]).name == tuple@[i].1
        &&& o[i + 1].rec == rec
        &&& o[i + 1].expr matches Expr::Proj { index, tuple: t, .. }
        &&& index == i
        &&& *t matches Expr::Sym { name: g, .. } && g == o[0].name
    } by {
        assert(projects(tbl, bs, i, rec, o[0].name, o[i + 1]));
    }
    let arms = o[0].expr->Case_arms@;
    let body = arms[0].1->Tuple_tuple@;
    assert forall|i: int| 0 <= i < tuple@.len() implies (#[trigger] body[i]) matches Expr::Sym { name, .. } && name == tuple@[i].1 by {
        assert(ty_of(tbl, bs[i].1, arms[0].1->Tuple_tys@[i]));
    }
}

/// The lowering pass from the typed core syntax tree to HIR.
pub struct AST2HIR {
    id: Id,
    symbol_table: SymbolTable,
}

impl AST2HIR {
    pub closed spec fn counter(&self) -> u64 {
        self.id.next_id
    }

    pub closed spec fn table(&self) -> SymbolTable {
        self.symbol_table
    }

    pub fn new(id: Id, symbol_table: SymbolTable) -> (r: AST2HIR)
        ensures
            r.counter() == id.next_id,
            r.table() == symbol_table,
    {
        AST2HIR { id, symbol_table }
    }

    pub fn symbol_table(&self) -> (r: &SymbolTable)
        ensures
            *r == self.table(),
    {
        &self.symbol_table
    }

    pub fn gensym(&mut self) -> (r: Symbol)
        requires
            old(self).counter() < u64::MAX,
        ensures
            r.0@ == g_tag(),
            r.1 == old(self).counter(),
            final(self).counter() == old(self).counter() + 1,
            final(self).table() == old(self).table(),
    {
        let id = self.id.next();
        let name = "#g".to_string();
        proof {
            reveal_strlit("#g");
            assert(name@ =~= g_tag());
        }
        Symbol(name, id)
    }

    /// Lowers a type whose datatypes are among the first `lim` of the table.
    fn conv_ty_below(&self, ty: &Type, Ghost(lim): Ghost<nat>) -> (r: HTy)
        requires
            self.table().wf(),
            lim <= self.table().types@.len(),
            self.table().ty_ok(*ty, lim),
        ensures
            lowers_ty(self.table(), *ty, lim, r),
        decreases lim, *ty,
    {
        match ty {
            Type::Int => HTy::Int,
            Type::Real => HTy::Real,
            Type::Tuple(tys) => {
                let mut hs: Vec<HTy> = Vec::new();
                let mut i: usize = 0;
                assert(forall|j: int| 0 <= j < tys@.len() ==> self.table().ty_ok(#[trigger] tys@[j], lim));
                while i < tys.len()
                    invariant
                        self.table().wf(),
                        lim <= self.table().types@.len(),
                        *ty == Type::Tuple(*tys),
                        forall|j: int| 0 <= j < tys@.len() ==> self.table().ty_ok(#[trigger] tys@[j], lim),
                        i <= tys@.len(),
                        hs@.len() == i,
                        forall|j: int| 0 <= j < i ==> lowers_ty(self.table(), tys@[j], lim, #[trigger] hs@[j]),
                    decreases tys@.len() - i,
                {
                    assert(self.table().ty_ok(tys@[i as int], lim));
                    assert(decreases_to!(*ty => (*ty)->Tuple_0));
                    assert(decreases_to!(*tys => tys@));
                    assert(decreases_to!(tys@ => tys@[i as int]));
                    let h = self.conv_ty_below(&tys[i], Ghost(lim));
                    hs.push(h);
                    i = i + 1;
                }
                HTy::Tuple(hs)
            },
            Type::Fun(a, b) => {
                let ha = self.conv_ty_below(a, Ghost(lim));
                let hb = self.conv_ty_below(b, Ghost(lim));
                HTy::Fun(Box::new(ha), Box::new(hb))
            },
            Type::Datatype(name) => {
                let t = self.symbol_table.get_type(name).unwrap();
                proof {
                    lemma_first_pos_bounds(self.table().type_names(), *name, self.table().types@.len() as int);
                }
                let constructors = &self.symbol_table.types[t].constructors;
                let mut ds: Vec<(u32, Option<HTy>)> = Vec::new();
                let mut c: usize = 0;
                while c < constructors.len()
                    invariant
                        self.table().wf(),
                        t < lim <= self.table().types@.len(),
                        *constructors == self.table().types@[t as int].constructors,
                        c <= constructors@.len(),
                        ds@.len() == c,
                        forall|k: int| 0 <= k < c ==> {
                            &&& (#[trigger] ds@[k]).0 == k
                            &&& match constructors@[k].1 {
                                None => ds@[k].1 is None,
                                Some(p) => ds@[k].1 matches Some(hp) && lowers_ty(self.table(), p, t as nat, hp),
                            }
                        },
                    decreases constructors@.len() - c,
                {
                    assert(self.table().types@[t as int].constructors@.len() <= u32::MAX);
                    let payload = match &constructors[c].1 {
                        Some(p) => {
                            assert(self.table().types@[t as int].constructors@[c as int].1 matches Some(q) ==> self.table().ty_ok(q, t as nat));
                            Some(self.conv_ty_below(p, Ghost(t as nat)))
                        },
                        None => None,
                    };
                    ds.push((c as u32, payload));
                    c = c + 1;
                }
                HTy::Datatype(ds)
            },
            Type::Variable(_) => {
                proof {
                    assert(false);
                }
                HTy::Int
            },
        }
    }

    /// Lowers a resolved type; datatypes become their discriminant lists.
    pub fn conv_ty(&self, ty: &Type) -> (r: HTy)
        requires
            self.table().wf(),
            ty_ok(self.table(), *ty),
        ensures
            ty_of(self.table(), *ty, r),
    {
        self.conv_ty_below(ty, Ghost(self.symbol_table.types@.len() as nat))
    }

    /// The zero-based position of a constructor in its datatype's list.
    pub fn conv_constructor_name(&self, name: &Symbol) -> (r: u32)
        requires
            self.table().wf(),
            self.table().discriminant(*name) >= 0,
        ensures
            r == self.table().discriminant(*name),
    {
        let typename = self.symbol_table.get_datatype_of_constructor(name).unwrap();
        let t = self.symbol_table.get_type(typename).unwrap();
        proof {
            lemma_first_pos_bounds(self.table().type_names(), *typename, self.table().types@.len() as int);
        }
        let constructors = &self.symbol_table.types[t].constructors;
        let ghost names = self.table().ctor_names(t as int);
        proof {
            lemma_first_pos_bounds(names, *name, names.len() as int);
        }
        let mut c: usize = 0;
        while c < constructors.len()
            invariant
                *constructors == self.table().types@[t as int].constructors,
                names == self.table().ctor_names(t as int),
                constructors@.len() <= u32::MAX,
                c <= constructors@.len(),
                ast::first_pos(names, *name, c as int) == -1,
                ast::position(names, *name) >= 0,
                ast::position(names, *name) == self.table().discriminant(*name),
            decreases constructors@.len() - c,
        {
            if constructors[c].0.same_as(name) {
                proof {
                    ast::lemma_first_pos_stable(names, *name, c as int + 1, names.len() as int);
                }
                return c as u32;
            }
            c = c + 1;
        }
        // The constructor is in its owner's list, so the loop has returned.
        proof {
            assert(ast::first_pos(names, *name, names.len() as int) == -1);
        }
        0
    }

    /// The component types of a tuple type.
    fn force_tuple(&self, ty: &Type) -> (r: Vec<HTy>)
        requires
            self.table().wf(),
            ty_ok(self.table(), *ty),
            ty is Tuple,
        ensures
            r@.len() == ty->Tuple_0@.len(),
            forall|i: int| 0 <= i < r@.len() ==> ty_of(self.table(), ty->Tuple_0@[i], #[trigger] r@[i]),
    {
        match ty {
            Type::Tuple(tys) => {
                let mut hs: Vec<HTy> = Vec::new();
                let mut i: usize = 0;
                while i < tys.len()
                    invariant
                        self.table().wf(),
                        *ty == Type::Tuple(*tys),
                        forall|j: int| 0 <= j < tys@.len() ==> ty_ok(self.table(), #[trigger] tys@[j]),
                        i <= tys@.len(),
                        hs@.len() == i,
                        forall|j: int| 0 <= j < i ==> ty_of(self.table(), tys@[j], #[trigger] hs@[j]),
                    decreases tys@.len() - i,
                {
                    hs.push(self.conv_ty(&tys[i]));
                    i = i + 1;
                }
                hs
            },
            _ => Vec::new(),
        }
    }

    /// The tuple type of the variables a pattern binds.
    fn conv_tuple_ty(&self, binds: &Vec<(&Symbol, &Type)>, Ghost(bs): Ghost<Seq<(Symbol, Type)>>) -> (r: HTy)
        requires
            self.table().wf(),
            binds@.len() == bs.len(),
            forall|i: int| 0 <= i < bs.len() ==> *(#[trigger] binds@[i]).1 == bs[i].1 && *binds@[i].0 == bs[i].0,
            forall|i: int| 0 <= i < bs.len() ==> ty_ok(self.table(), (#[trigger] bs[i]).1),
        ensures
            tuple_ty(self.table(), bs, r),
    {
        let mut tys: Vec<HTy> = Vec::new();
        let mut i: usize = 0;
        while i < binds.len()
            invariant
                self.table().wf(),
                binds@.len() == bs.len(),
                forall|i: int| 0 <= i < bs.len() ==> *(#[trigger] binds@[i]).1 == bs[i].1 && *binds@[i].0 == bs[i].0,
                forall|i: int| 0 <= i < bs.len() ==> ty_ok(self.table(), (#[trigger] bs[i]).1),
                i <= bs.len(),
                tys@.len() == i,
                forall|j: int| 0 <= j < i ==> ty_of(self.table(), (#[trigger] bs[j]).1, tys@[j]),
            decreases bs.len() - i,
        {
            assert(ty_ok(self.table(), bs[i as int].1));
            tys.push(self.conv_ty(binds[i].1));
            i = i + 1;
        }
        HTy::Tuple(tys)
    }

    /// The component types, and the tuple of variables, that the single
    /// clause of an expanded binding returns.
    fn conv_bound_tuple(&self, binds: &Vec<(&Symbol, &Type)>, Ghost(bs): Ghost<Seq<(Symbol, Type)>>) -> (r: (Vec<HTy>, Vec<Expr>))
        requires
            self.table().wf(),
            binds@.len() == bs.len(),
            forall|i: int| 0 <= i < bs.len() ==> *(#[trigger] binds@[i]).1 == bs[i].1 && *binds@[i].0 == bs[i].0,
            forall|i: int| 0 <= i < bs.len() ==> ty_ok(self.table(), (#[trigger] bs[i]).1),
        ensures
            r.0@.len() == bs.len(),
            r.1@.len() == bs.len(),
            forall|i: int| 0 <= i < bs.len() ==> {
                &&& ty_of(self.table(), (#[trigger] bs[i]).1, r.0@[i])
                &&& r.1@[i] matches Expr::Sym { ty, name }
                &&& name == bs[i].0
                &&& ty_of(self.table(), bs[i].1, ty)
            },
    {
        let mut tys: Vec<HTy> = Vec::new();
        let mut elems: Vec<Expr> = Vec::new();
        let mut i: usize = 0;
        while i < binds.len()
            invariant
                self.table().wf(),
                binds@.len() == bs.len(),
                forall|i: int| 0 <= i < bs.len() ==> *(#[trigger] binds@[i]).1 == bs[i].1 && *binds@[i].0 == bs[i].0,
                forall|i: int| 0 <= i < bs.len() ==> ty_ok(self.table(), (#[trigger] bs[i]).1),
                i <= bs.len(),
                tys@.len() == i,
                elems@.len() == i,
                forall|j: int| 0 <= j < i ==> {
                    &&& ty_of(self.table(), (#[trigger] bs[j]).1, tys@[j])
                    &&& elems@[j] matches Expr::Sym { ty, name }
                    &&& name == bs[j].0
                    &&& ty_of(self.table(), bs[j].1, ty)
                },
            decreases bs.len() - i,
        {
            assert(ty_ok(self.table(), bs[i as int].1));
            tys.push(self.conv_ty(binds[i].1));
            elems.push(Expr::Sym { ty: self.conv_ty(binds[i].1), name: binds[i].0.duplicate() });
            i = i + 1;
        }
        (tys, elems)
    }

    /// One binding `xi = #i tmp` for each variable `xi` of a pattern.
    fn conv_projections(
        &self,
        rec: bool,
        binds: &Vec<(&Symbol, &Type)>,
        tmp: &Symbol,
        Ghost(bs): Ghost<Seq<(Symbol, Type)>>,
    ) -> (r: Vec<Val>)
        requires
            self.table().wf(),
            binds@.len() == bs.len(),
            bs.len() < u32::MAX,
            forall|i: int| 0 <= i < bs.len() ==> *(#[trigger] binds@[i]).1 == bs[i].1 && *binds@[i].0 == bs[i].0,
            forall|i: int| 0 <= i < bs.len() ==> ty_ok(self.table(), (#[trigger] bs[i]).1),
        ensures
            r@.len() == bs.len(),
            forall|i: int| 0 <= i < bs.len() ==> projects(self.table(), bs, i, rec, *tmp, #[trigger] r@[i]),
    {
        let mut vals: Vec<Val> = Vec::new();
        let mut i: usize = 0;
        while i < binds.len()
            invariant
                self.table().wf(),
                binds@.len() == bs.len(),
                bs.len() < u32::MAX,
                forall|i: int| 0 <= i < bs.len() ==> *(#[trigger] binds@[i]).1 == bs[i].1 && *binds@[i].0 == bs[i].0,
                forall|i: int| 0 <= i < bs.len() ==> ty_ok(self.table(), (#[trigger] bs[i]).1),
                i <= bs.len(),
                vals@.len() == i,
                forall|j: int| 0 <= j < i ==> projects(self.table(), bs, j, rec, *tmp, #[trigger] vals@[j]),
            decreases bs.len() - i,
        {
            assert(ty_ok(self.table(), bs[i as int].1));
            let tuple = Expr::Sym { ty: self.conv_tuple_ty(binds, Ghost(bs)), name: tmp.duplicate() };
            let v = Val {
                ty: self.conv_ty(binds[i].1),
                rec,
                name: binds[i].0.duplicate(),
                expr: Expr::Proj { ty: self.conv_ty(binds[i].1), index: i as u32, tuple: Box::new(tuple) },
            };
            vals.push(v);
            i = i + 1;
        }
        vals
    }

    /// `val p = e` for a tuple or constructor pattern `p`: a synthesised
    /// binding of the tuple of `p`'s variables, then one projection per
    /// variable.
    fn conv_val_pattern(
        &mut self,
        rec: bool,
        pattern: &ast::Pattern<Type>,
        expr: &ast::Expr<Type>,
        Ghost(whole): Ghost<ast::Statement<Type>>,
    ) -> (r: Vec<Val>)
        requires
            whole == (ast::Statement::Val { rec, pattern: *pattern, expr: *expr }),
            pattern is Tuple || pattern is Constructor,
            old(self).table().wf(),
            stmt_ok(old(self).table(), whole),
            old(self).counter() + lfresh_stmt(whole) <= u64::MAX,
        ensures
            lowers_stmt(old(self).table(), whole, old(self).counter() as int, r@),
            final(self).counter() == old(self).counter() + lfresh_stmt(whole),
            final(self).table() == old(self).table(),
        decreases whole, 3int,
    {
            let ghost bs = pattern.bound();
        let binds = pattern.binds();
        proof {
            assert forall|i: int| 0 <= i < bs.len() implies ty_ok(self.table(), (#[trigger] bs[i]).1) by {
                if pattern is Tuple {
                    assert(bs[i].1 == pattern->Tuple_tuple@[i].0);
                }
            }
            assert(decreases_to!(whole => whole->Val_expr));
        }
        let (tys, elems) = self.conv_bound_tuple(&binds, Ghost(bs));
        let pat = self.conv_pat(pattern);
        let scrut = self.conv_expr(expr);
        let name = self.gensym();
        let projs = self.conv_projections(rec, &binds, &name, Ghost(bs));
        let case = Expr::Case {
            ty: self.conv_tuple_ty(&binds, Ghost(bs)),
            expr: Box::new(scrut),
            arms: vec![(pat, Expr::Tuple { tys, tuple: elems })],
        };
        let head = Val { ty: self.conv_tuple_ty(&binds, Ghost(bs)), rec: false, name, expr: case };
        let ghost hv = head;
        let ghost pv = projs@;
        let mut ret = vec![head];
        let mut projs = projs;
        ret.append(&mut projs);
        proof {
            assert(ret@[0] == hv);
            assert forall|i: int| 0 <= i < bs.len() implies projects(self.table(), bs, i, rec, ret@[0].name, #[trigger] ret@[i + 1]) by {
                assert(ret@[i + 1] == pv[i]);
            }
            assert(expansion(self.table(), rec, *pattern, old(self).counter() + lfresh_expr(*expr), ret@));
        }
        ret
    }

    fn conv_exprs(&mut self, exprs: &Vec<ast::Expr<Type>>) -> (r: Vec<Expr>)
        requires
            old(self).table().wf(),
            forall|j: int| 0 <= j < exprs@.len() ==> expr_ok(old(self).table(), #[trigger] exprs@[j]),
            old(self).counter() + lfresh_exprs(exprs@, exprs@.len() as int) <= u64::MAX,
        ensures
            r@.len() == exprs@.len(),
            forall|j: int| 0 <= j < exprs@.len() ==> lowers_expr(
                old(self).table(),
                #[trigger] exprs@[j],
                old(self).counter() + lfresh_exprs(exprs@, j),
                r@[j],
            ),
            final(self).counter() == old(self).counter() + lfresh_exprs(exprs@, exprs@.len() as int),
            final(self).table() == old(self).table(),
        decreases exprs@, 6int,
    {
        let ghost n0 = self.counter() as int;
        let ghost tbl = self.table();
        let ghost s = exprs@;
        let mut out: Vec<Expr> = Vec::new();
        let mut i: usize = 0;
        while i < exprs.len()
            invariant
                self.table() == tbl,
                tbl.wf(),
                s == exprs@,
                i <= s.len(),
                forall|j: int| 0 <= j < s.len() ==> expr_ok(tbl, #[trigger] s[j]),
                n0 + lfresh_exprs(s, s.len() as int) <= u64::MAX,
                self.counter() == n0 + lfresh_exprs(s, i as int),
                out@.len() == i,
                forall|j: int| 0 <= j < i ==> lowers_expr(tbl, #[trigger] s[j], n0 + lfresh_exprs(s, j), out@[j]),
            decreases s.len() - i,
        {
            proof {
                lemma_lfresh_exprs_mono(s, i + 1, s.len() as int);
                assert(decreases_to!(exprs@ => exprs@[i as int]));
            }
            let e = self.conv_expr(&exprs[i]);
            out.push(e);
            i = i + 1;
        }
        out
    }

    fn conv_expr(&mut self, expr: &ast::Expr<Type>) -> (r: Expr)
        requires
            old(self).table().wf(),
            expr_ok(old(self).table(), *expr),
            old(self).counter() + lfresh_expr(*expr) <= u64::MAX,
        ensures
            lowers_expr(old(self).table(), *expr, old(self).counter() as int, r),
            final(self).counter() == old(self).counter() + lfresh_expr(*expr),
            final(self).table() == old(self).table(),
        decreases *expr, 5int,
    {
        match expr {
            ast::Expr::Binds { ty, binds, ret } => {
                let h = self.conv_ty(ty);
                proof {
                    assert(decreases_to!(*expr => (*expr)->Binds_binds));
                }
                let binds = self.conv_statements(binds);
                let ret = self.conv_expr(ret);
                Expr::Binds { ty: h, binds, ret: Box::new(ret) }
            },
            ast::Expr::BinOp { op, ty, l, r } => {
                let h = self.conv_ty(ty);
                let l = self.conv_expr(l);
                let r = self.conv_expr(r);
                Expr::BinOp { ty: h, name: op.duplicate(), l: Box::new(l), r: Box::new(r) }
            },
            ast::Expr::Fn { ty, param, body } => match ty {
                Type::Fun(param_ty, body_ty) => {
                    let pt = self.conv_ty(param_ty);
                    let bt = self.conv_ty(body_ty);
                    let body = self.conv_expr(body);
                    Expr::Fun { param: (pt, param.duplicate()), body_ty: bt, body: Box::new(body), captures: Vec::new() }
                },
                // `expr_ok` gives every function literal a function type.
                _ => Expr::Tuple { tys: Vec::new(), tuple: Vec::new() },
            },
            ast::Expr::App { ty, fun, arg } => {
                let h = self.conv_ty(ty);
                let fun = self.conv_expr(fun);
                let arg = self.conv_expr(arg);
                Expr::App { ty: h, fun: Box::new(fun), arg: Box::new(arg) }
            },
            // Conditionals are gone after desugaring; `expr_ok` excludes them.
            ast::Expr::If { .. } => Expr::Tuple { tys: Vec::new(), tuple: Vec::new() },
            ast::Expr::Case { ty, cond, clauses } => {
                let ghost n0 = self.counter() as int;
                let ghost tbl = self.table();
                let h = self.conv_ty(ty);
                let c = self.conv_expr(cond);
                let ghost n1 = self.counter() as int;
                let ghost s = clauses@;
                let mut arms: Vec<(Pattern, Expr)> = Vec::new();
                let mut i: usize = 0;
                while i < clauses.len()
                    invariant
                        self.table() == tbl,
                        tbl.wf(),
                        s == clauses@,
                        *expr is Case,
                        (*expr)->Case_clauses == *clauses,
                        i <= s.len(),
                        forall|j: int| 0 <= j < s.len() ==> pat_ok(tbl, (#[trigger] s[j]).0) && expr_ok(tbl, s[j].1),
                        n1 + lfresh_clauses(s, s.len() as int) <= u64::MAX,
                        self.counter() == n1 + lfresh_clauses(s, i as int),
                        arms@.len() == i,
                        forall|j: int| 0 <= j < i ==> {
                            &&& lowers_pat(tbl, (#[trigger] s[j]).0, arms@[j].0)
                            &&& lowers_expr(tbl, s[j].1, n1 + lfresh_clauses(s, j), arms@[j].1)
                        },
                    decreases s.len() - i,
                {
                    proof {
                        lemma_lfresh_clauses_mono(s, i + 1, s.len() as int);
                        assert(decreases_to!(*expr => (*expr)->Case_clauses));
                        assert(decreases_to!((*expr)->Case_clauses => (*expr)->Case_clauses@));
                        assert(decreases_to!(clauses@ => clauses@[i as int]));
                        assert(decreases_to!(clauses@[i as int] => clauses@[i as int].1));
                    }
                    let p = self.conv_pat(&clauses[i].0);
                    let e = self.conv_expr(&clauses[i].1);
                    arms.push((p, e));
                    i = i + 1;
                }
                Expr::Case { ty: h, expr: Box::new(c), arms }
            },
            ast::Expr::Tuple { ty, tuple } => {
                let tys = self.force_tuple(ty);
                proof {
                    assert(decreases_to!(*expr => (*expr)->Tuple_tuple));
                }
                let tuple = self.conv_exprs(tuple);
                Expr::Tuple { tys, tuple }
            },
            ast::Expr::Constructor { ty, arg, name } => {
                let h = self.conv_ty(ty);
                let arg = match arg {
                    Some(a) => Some(Box::new(self.conv_expr(a))),
                    None => None,
                };
                let descriminant = self.conv_constructor_name(name);
                Expr::Constructor { ty: h, arg, descriminant }
            },
            ast::Expr::Sym { ty, name } => Expr::Sym { ty: self.conv_ty(ty), name: name.duplicate() },
            ast::Expr::Lit { ty, value } => Expr::Lit { ty: self.conv_ty(ty), value: value.duplicate() },
        }
    }

    fn conv_statement(&mut self, stmt: &ast::Statement<Type>) -> (r: Vec<Val>)
        requires
            old(self).table().wf(),
            stmt_ok(old(self).table(), *stmt),
            old(self).counter() + lfresh_stmt(*stmt) <= u64::MAX,
        ensures
            lowers_stmt(old(self).table(), *stmt, old(self).counter() as int, r@),
            final(self).counter() == old(self).counter() + lfresh_stmt(*stmt),
            final(self).table() == old(self).table(),
        decreases *stmt, 4int,
    {
            match stmt {
            ast::Statement::Datatype { .. } => Vec::new(),
            // Function definitions are gone after desugaring; `stmt_ok` excludes them.
            ast::Statement::Fun { .. } => Vec::new(),
            ast::Statement::Val { rec, pattern, expr } => match pattern {
                ast::Pattern::Variable { name, ty } => {
                    let h = self.conv_ty(ty);
                    let e = self.conv_expr(expr);
                    vec![Val { ty: h, rec: *rec, name: name.duplicate(), expr: e }]
                },
                ast::Pattern::Wildcard { ty } => {
                    let h = self.conv_ty(ty);
                    let name = self.gensym();
                    let e = self.conv_expr(expr);
                    vec![Val { ty: h, rec: false, name, expr: e }]
                },
                ast::Pattern::Constant { ty, .. } => {
                    let h = self.conv_ty(ty);
                    let name = self.gensym();
                    let e = self.conv_expr(expr);
                    vec![Val { ty: h, rec: false, name, expr: e }]
                },
                _ => self.conv_val_pattern(*rec, pattern, expr, Ghost(*stmt)),
            },
        }
    }

    fn conv_statements(&mut self, stmts: &Vec<ast::Statement<Type>>) -> (r: Vec<Val>)
        requires
            old(self).table().wf(),
            forall|j: int| 0 <= j < stmts@.len() ==> stmt_ok(old(self).table(), #[trigger] stmts@[j]),
            old(self).counter() + lfresh_stmts(stmts@, stmts@.len() as int) <= u64::MAX,
        ensures
            lowers_stmts(old(self).table(), stmts@, old(self).counter() as int, r@),
            final(self).counter() == old(self).counter() + lfresh_stmts(stmts@, stmts@.len() as int),
            final(self).table() == old(self).table(),
        decreases stmts@, 6int,
    {
        let ghost n0 = self.counter() as int;
        let ghost tbl = self.table();
        let ghost s = stmts@;
        let mut out: Vec<Val> = Vec::new();
        let mut i: usize = 0;
        proof {
            reveal(stmts_prefix_lowered);
        }
        while i < stmts.len()
            invariant
                self.table() == tbl,
                tbl.wf(),
                s == stmts@,
                i <= s.len(),
                forall|j: int| 0 <= j < s.len() ==> stmt_ok(tbl, #[trigger] s[j]),
                n0 + lfresh_stmts(s, s.len() as int) <= u64::MAX,
                self.counter() == n0 + lfresh_stmts(s, i as int),
                stmts_prefix_lowered(tbl, s, n0, i as int, out@),
            decreases s.len() - i,
        {
            proof {
                lemma_lfresh_stmts_mono(s, i + 1, s.len() as int);
                assert(decreases_to!(stmts@ => stmts@[i as int]));
            }
            let mut vals = self.conv_statement(&stmts[i]);
            let ghost vs = vals@;
            let ghost prev = out@;
            out.append(&mut vals);
            proof {
                lemma_stmts_step(tbl, s, n0, i as int, prev, vs, out@);
            }
            i = i + 1;
        }
        proof {
            lemma_stmts_done(tbl, s, n0, out@);
        }
        out
    }

    /// Lowers a whole program: each statement to its bindings, in order.
    pub fn conv_ast(&mut self, ast: &ast::AST<Type>) -> (r: HIR)
        requires
            old(self).table().wf(),
            forall|j: int| 0 <= j < ast.0@.len() ==> stmt_ok(old(self).table(), #[trigger] ast.0@[j]),
            old(self).counter() + lfresh_stmts(ast.0@, ast.0@.len() as int) <= u64::MAX,
        ensures
            lowers_stmts(old(self).table(), ast.0@, old(self).counter() as int, r.0@),
            final(self).counter() == old(self).counter() + lfresh_stmts(ast.0@, ast.0@.len() as int),
            final(self).table() == old(self).table(),
    {
        HIR(self.conv_statements(&ast.0))
    }

    /// Lowers a pattern: constructors become discriminants, a wildcard a
    /// variable named `_`.
    pub fn conv_pat(&self, pat: &ast::Pattern<Type>) -> (r: Pattern)
        requires
            self.table().wf(),
            pat_ok(self.table(), *pat),
        ensures
            lowers_pat(self.table(), *pat, r),
    {
        match pat {
            ast::Pattern::Constant { value, ty } => Pattern::Constant { value: *value, ty: self.conv_ty(ty) },
            ast::Pattern::Constructor { ty, arg, name } => {
                let h = self.conv_ty(ty);
                let arg = match arg {
                    Some((t, s)) => Some((self.conv_ty(t), s.duplicate())),
                    None => None,
                };
                Pattern::Constructor { ty: h, arg, descriminant: self.conv_constructor_name(name) }
            },
            ast::Pattern::Tuple { tuple, .. } => {
                let mut tys: Vec<HTy> = Vec::new();
                let mut syms: Vec<Symbol> = Vec::new();
                let mut i: usize = 0;
                while i < tuple.len()
                    invariant
                        self.table().wf(),
                        pat_ok(self.table(), *pat),
                        *pat matches ast::Pattern::Tuple { tuple: tp, .. } && tp == *tuple,
                        i <= tuple@.len(),
                        tys@.len() == i,
                        syms@.len() == i,
                        forall|j: int| 0 <= j < i ==> (#[trigger] syms@[j]) == tuple@[j].1 && ty_of(self.table(), tuple@[j].0, tys@[j]),
                    decreases tuple@.len() - i,
                {
                    assert(ty_ok(self.table(), tuple@[i as int].0));
                    tys.push(self.conv_ty(&tuple[i].0));
                    syms.push(tuple[i].1.duplicate());
                    i = i + 1;
                }
                Pattern::Tuple { tys, tuple: syms }
            },
            ast::Pattern::Variable { name, ty } => Pattern::Var { name: name.duplicate(), ty: self.conv_ty(ty) },
            ast::Pattern::Wildcard { ty } => {
                let name = Symbol::new("_");
                proof {
                    reveal_strlit("_");
                    assert(name.0@ =~= wildcard_name());
                }
                Pattern::Var { name, ty: self.conv_ty(ty) }
            },
        }
    }
}

} // verus!
