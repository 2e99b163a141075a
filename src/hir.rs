use vstd::prelude::*;
use crate::prim::{Literal, Symbol};

verus! {

/// Fully resolved, monomorphic types of the lowered program. A datatype is
/// the list of its discriminants, each with its optional payload type.
pub enum HTy {
    Int,
    Real,
    Tuple(Vec<HTy>),
    Fun(Box<HTy>, Box<HTy>),
    Datatype(Vec<(u32, Option<HTy>)>),
}

pub enum Pattern {
    Constant { value: i64, ty: HTy },
    Constructor { descriminant: u32, arg: Option<(HTy, Symbol)>, ty: HTy },
    Tuple { tys: Vec<HTy>, tuple: Vec<Symbol> },
    Var { name: Symbol, ty: HTy },
}

pub enum Expr {
    Binds { ty: HTy, binds: Vec<Val>, ret: Box<Expr> },
    BinOp { ty: HTy, name: Symbol, l: Box<Expr>, r: Box<Expr> },
    /// A function literal with its capture list, which a later phase fills.
    Fun { param: (HTy, Symbol), body_ty: HTy, body: Box<Expr>, captures: Vec<(HTy, Symbol)> },
    App { ty: HTy, fun: Box<Expr>, arg: Box<Expr> },
    Case { ty: HTy, expr: Box<Expr>, arms: Vec<(Pattern, Expr)> },
    Tuple { tys: Vec<HTy>, tuple: Vec<Expr> },
    Proj { ty: HTy, index: u32, tuple: Box<Expr> },
    Constructor { ty: HTy, arg: Option<Box<Expr>>, descriminant: u32 },
    Sym { ty: HTy, name: Symbol },
    Lit { ty: HTy, value: Literal },
}

/// One value binding of the lowered program.
pub struct Val {
    pub ty: HTy,
    pub rec: bool,
    pub name: Symbol,
    pub expr: Expr,
}

pub struct HIR(pub Vec<Val>);

} // verus!
