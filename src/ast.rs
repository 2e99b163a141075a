use vstd::prelude::*;
use crate::prim::{Literal, Symbol};

verus! {

broadcast use {vstd::std_specs::vec::group_vec_axioms, vstd::seq::group_seq_axioms};

/// Surface types. `Variable` only occurs before type resolution.
pub enum Type {
    Variable(u64),
    Int,
    Real,
    Fun(Box<Type>, Box<Type>),
    Tuple(Vec<Type>),
    Datatype(Symbol),
}

impl Type {
    pub fn fun(param: Type, ret: Type) -> (r: Type)
        ensures
            r == Type::Fun(Box::new(param), Box::new(ret)),
    {
        Type::Fun(Box::new(param), Box::new(ret))
    }

    pub fn unit() -> (r: Type)
        ensures
            r matches Type::Tuple(tys) && tys@.len() == 0,
    {
        Type::Tuple(Vec::new())
    }
}

pub enum Pattern<Ty> {
    Constant { value: i64, ty: Ty },
    Constructor { name: Symbol, arg: Option<(Ty, Symbol)>, ty: Ty },
    Tuple { tuple: Vec<(Ty, Symbol)>, ty: Ty },
    Variable { name: Symbol, ty: Ty },
    Wildcard { ty: Ty },
}

impl<Ty> Pattern<Ty> {
    /// The variables the pattern introduces, in order, with their types.
    pub open spec fn bound(self) -> Seq<(Symbol, Ty)> {
        match self {
            Pattern::Constant { .. } => seq![],
            Pattern::Constructor { arg, .. } => match arg {
                Some((t, s)) => seq![(s, t)],
                None => seq![],
            },
            Pattern::Tuple { tuple, .. } => tuple@.map_values(|b: (Ty, Symbol)| (b.1, b.0)),
            Pattern::Variable { name, ty } => seq![(name, ty)],
            Pattern::Wildcard { .. } => seq![],
        }
    }

    pub fn binds(&self) -> (r: Vec<(&Symbol, &Ty)>)
        ensures
            r@.len() == self.bound().len(),
            forall|i: int| 0 <= i < r@.len() ==> *(#[trigger] r@[i]).0 == self.bound()[i].0 && *r@[i].1 == self.bound()[i].1,
    {
        match self {
            Pattern::Constant { .. } => Vec::new(),
            Pattern::Constructor { arg, .. } => match arg {
                Some((t, s)) => vec![(s, t)],
                None => Vec::new(),
            },
            Pattern::Tuple { tuple, .. } => {
                let mut r: Vec<(&Symbol, &Ty)> = Vec::new();
                let mut i: usize = 0;
                while i < tuple.len()
                    invariant
                        *self matches Pattern::Tuple { tuple: t, .. } && t == *tuple,
                        i <= tuple@.len(),
                        r@.len() == i,
                        forall|j: int| 0 <= j < i ==> *(#[trigger] r@[j]).0 == tuple@[j].1 && *r@[j].1 == tuple@[j].0,
                    decreases tuple@.len() - i,
                {
                    r.push((&tuple[i].1, &tuple[i].0));
                    i = i + 1;
                }
                r
            },
            Pattern::Variable { name, ty } => vec![(name, ty)],
            Pattern::Wildcard { .. } => Vec::new(),
        }
    }

    pub open spec fn ty_spec(self) -> Ty {
        match self {
            Pattern::Constant { ty, .. } => ty,
            Pattern::Constructor { ty, .. } => ty,
            Pattern::Tuple { ty, .. } => ty,
            Pattern::Variable { ty, .. } => ty,
            Pattern::Wildcard { ty } => ty,
        }
    }

    pub fn ty(&self) -> (r: &Ty)
        ensures
            *r == self.ty_spec(),
    {
        match self {
            Pattern::Constant { ty, .. } => ty,
            Pattern::Constructor { ty, .. } => ty,
            Pattern::Tuple { ty, .. } => ty,
            Pattern::Variable { ty, .. } => ty,
            Pattern::Wildcard { ty } => ty,
        }
    }
}

pub enum Expr<Ty> {
    Binds { ty: Ty, binds: Vec<Statement<Ty>>, ret: Box<Expr<Ty>> },
    BinOp { op: Symbol, ty: Ty, l: Box<Expr<Ty>>, r: Box<Expr<Ty>> },
    Fn { ty: Ty, param: Symbol, body: Box<Expr<Ty>> },
    App { ty: Ty, fun: Box<Expr<Ty>>, arg: Box<Expr<Ty>> },
    If { ty: Ty, cond: Box<Expr<Ty>>, on_true: Box<Expr<Ty>>, on_false: Box<Expr<Ty>> },
    Case { ty: Ty, cond: Box<Expr<Ty>>, clauses: Vec<(Pattern<Ty>, Expr<Ty>)> },
    Tuple { ty: Ty, tuple: Vec<Expr<Ty>> },
    Constructor { ty: Ty, arg: Option<Box<Expr<Ty>>>, name: Symbol },
    Sym { ty: Ty, name: Symbol },
    Lit { ty: Ty, value: Literal },
}

impl<Ty> Expr<Ty> {
    pub open spec fn ty_spec(self) -> Ty {
        match self {
            Expr::Binds { ty, .. } => ty,
            Expr::BinOp { ty, .. } => ty,
            Expr::Fn { ty, .. } => ty,
            Expr::App { ty, .. } => ty,
            Expr::If { ty, .. } => ty,
            Expr::Case { ty, .. } => ty,
            Expr::Tuple { ty, .. } => ty,
            Expr::Constructor { ty, .. } => ty,
            Expr::Sym { ty, .. } => ty,
            Expr::Lit { ty, .. } => ty,
        }
    }

    /// The type annotation of the node.
    pub fn ty(&self) -> (r: &Ty)
        ensures
            *r == self.ty_spec(),
    {
        match self {
            Expr::Binds { ty, .. } => ty,
            Expr::BinOp { ty, .. } => ty,
            Expr::Fn { ty, .. } => ty,
            Expr::App { ty, .. } => ty,
            Expr::If { ty, .. } => ty,
            Expr::Case { ty, .. } => ty,
            Expr::Tuple { ty, .. } => ty,
            Expr::Constructor { ty, .. } => ty,
            Expr::Sym { ty, .. } => ty,
            Expr::Lit { ty, .. } => ty,
        }
    }

    pub fn boxed(self) -> (r: Box<Expr<Ty>>)
        ensures
            *r == self,
    {
        Box::new(self)
    }
}

pub enum Statement<Ty> {
    Datatype { name: Symbol, constructors: Vec<(Symbol, Option<Type>)> },
    Val { rec: bool, pattern: Pattern<Ty>, expr: Expr<Ty> },
    Fun { name: Symbol, params: Vec<Pattern<Ty>>, expr: Expr<Ty> },
}

pub struct AST<Ty>(pub Vec<Statement<Ty>>);

/// Errors the stages before lowering report to the user.
pub enum TypeError {
    MisMatch { expected: Type, actual: Type },
    CannotInfer,
    FreeVar,
    NotFunction(Expr<Type>),
    /// A parse failure, carried as the parser's message.
    ParseError(String),
}

impl TypeError {
    /// A one-line description of the error.
    pub fn description(&self) -> (r: &'static str)
        ensures
            match self {
                TypeError::MisMatch { .. } => r@ == "type mismatches against expected type"@,
                TypeError::CannotInfer => r@ == "cannot infer the type"@,
                TypeError::FreeVar => r@ == "free variable is found"@,
                TypeError::NotFunction(_) => r@ == "not a function"@,
                TypeError::ParseError(_) => r@ == "parse error"@,
            },
    {
        match self {
            TypeError::MisMatch { .. } => "type mismatches against expected type",
            TypeError::CannotInfer => "cannot infer the type",
            TypeError::FreeVar => "free variable is found",
            TypeError::NotFunction(_) => "not a function",
            TypeError::ParseError(_) => "parse error",
        }
    }
}

/// What the symbol table knows of one datatype: its constructors in
/// declaration order, each with its optional payload type.
pub struct TypeInfo {
    pub name: Symbol,
    pub constructors: Vec<(Symbol, Option<Type>)>,
}

/// Read-only context for lowering: the declared datatypes, and for each
/// constructor name the datatype that owns it.
pub struct SymbolTable {
    pub types: Vec<TypeInfo>,
    pub owners: Vec<(Symbol, Symbol)>,
}

/// Position of the first symbol among the first `k` of `names` that is the
/// same as `name`, or -1.
pub open spec fn first_pos(names: Seq<Symbol>, name: Symbol, k: int) -> int
    decreases k,
{
    if k <= 0 || k > names.len() {
        -1
    } else if first_pos(names, name, k - 1) >= 0 {
        first_pos(names, name, k - 1)
    } else if names[k - 1].same(name) {
        k - 1
    } else {
        -1
    }
}

pub open spec fn position(names: Seq<Symbol>, name: Symbol) -> int {
    first_pos(names, name, names.len() as int)
}

pub proof fn lemma_first_pos_bounds(names: Seq<Symbol>, name: Symbol, k: int)
    requires
        0 <= k <= names.len(),
    ensures
        -1 <= first_pos(names, name, k) < k,
        first_pos(names, name, k) >= 0 ==> names[first_pos(names, name, k)].same(name),
    decreases k,
{
    if k > 0 {
        lemma_first_pos_bounds(names, name, k - 1);
    }
}

impl SymbolTable {
    pub open spec fn type_names(&self) -> Seq<Symbol> {
        self.types@.map_values(|t: TypeInfo| t.name)
    }

    /// Index of the datatype called `name`, or -1.
    pub open spec fn type_index(&self, name: Symbol) -> int {
        position(self.type_names(), name)
    }

    pub open spec fn ctor_names(&self, t: int) -> Seq<Symbol> {
        self.types@[t].constructors@.map_values(|c: (Symbol, Option<Type>)| c.0)
    }

    /// Index of the datatype that owns constructor `name`, or -1.
    pub open spec fn owner_index(&self, name: Symbol) -> int {
        let o = position(self.owners@.map_values(|p: (Symbol, Symbol)| p.0), name);
        if o < 0 {
            -1
        } else {
            self.type_index(self.owners@[o].1)
        }
    }

    /// The zero-based position of constructor `name` in its owner's list, or -1.
    pub open spec fn discriminant(&self, name: Symbol) -> int {
        let t = self.owner_index(name);
        if t < 0 {
            -1
        } else {
            position(self.ctor_names(t), name)
        }
    }

    /// The type mentions no type variable, and each datatype it names is
    /// declared among the first `lim` datatypes.
    pub open spec fn ty_ok(&self, ty: Type, lim: nat) -> bool
        decreases ty,
    {
        match ty {
            Type::Variable(_) => false,
            Type::Int => true,
            Type::Real => true,
            Type::Fun(a, b) => self.ty_ok(*a, lim) && self.ty_ok(*b, lim),
            Type::Tuple(tys) => forall|i: int| 0 <= i < tys@.len() ==> self.ty_ok(#[trigger] tys@[i], lim),
            Type::Datatype(name) => 0 <= self.type_index(name) < lim,
        }
    }

    /// Payloads of each datatype only name datatypes declared before it, so
    /// that resolving a type always terminates; discriminants fit in `u32`.
    pub open spec fn wf(&self) -> bool {
        forall|t: int| 0 <= t < self.types@.len() ==> {
            &&& (#[trigger] self.types@[t]).constructors@.len() <= u32::MAX
            &&& forall|c: int| 0 <= c < self.types@[t].constructors@.len() ==>
                ((#[trigger] self.types@[t].constructors@[c]).1 matches Some(p) ==> self.ty_ok(p, t as nat))
        }
    }

    pub fn get_type(&self, name: &Symbol) -> (r: Option<usize>)
        ensures
            match r {
                Some(i) => i == self.type_index(*name),
                None => self.type_index(*name) == -1,
            },
    {
        let mut i: usize = 0;
        while i < self.types.len()
            invariant
                i <= self.types@.len(),
                first_pos(self.type_names(), *name, i as int) == -1,
            decreases self.types@.len() - i,
        {
            if self.types[i].name.same_as(name) {
                proof {
                    lemma_first_pos_bounds(self.type_names(), *name, self.types@.len() as int);
                    lemma_first_pos_stable(self.type_names(), *name, i as int + 1, self.types@.len() as int);
                }
                return Some(i);
            }
            i = i + 1;
        }
        None
    }

    pub fn get_datatype_of_constructor(&self, name: &Symbol) -> (r: Option<&Symbol>)
        ensures
            match r {
                Some(t) => {
                    let o = position(self.owners@.map_values(|p: (Symbol, Symbol)| p.0), *name);
                    o >= 0 && *t == self.owners@[o].1
                },
                None => position(self.owners@.map_values(|p: (Symbol, Symbol)| p.0), *name) == -1,
            },
    {
        let ghost names = self.owners@.map_values(|p: (Symbol, Symbol)| p.0);
        let mut i: usize = 0;
        while i < self.owners.len()
            invariant
                i <= self.owners@.len(),
                names == self.owners@.map_values(|p: (Symbol, Symbol)| p.0),
                first_pos(names, *name, i as int) == -1,
            decreases self.owners@.len() - i,
        {
            if self.owners[i].0.same_as(name) {
                proof {
                    lemma_first_pos_stable(names, *name, i as int + 1, self.owners@.len() as int);
                }
                return Some(&self.owners[i].1);
            }
            i = i + 1;
        }
        None
    }
}

proof fn lemma_first_pos_none(names: Seq<Symbol>, name: Symbol, k: int)
    requires
        0 <= k <= names.len(),
        forall|d: int| 0 <= d < k ==> !(#[trigger] names[d]).same(name),
    ensures
        first_pos(names, name, k) == -1,
    decreases k,
{
    if k > 0 {
        lemma_first_pos_none(names, name, k - 1);
    }
}

/// A constructor's discriminant is its zero-based position in the
/// declared constructor list of the datatype that owns it, and depends on
/// nothing else in the table.
pub proof fn lemma_discriminant_is_position(tbl: SymbolTable, name: Symbol, c: int)
    requires
        tbl.owner_index(name) >= 0,
        0 <= c < tbl.ctor_names(tbl.owner_index(name)).len(),
        tbl.ctor_names(tbl.owner_index(name))[c].same(name),
        forall|d: int| 0 <= d < c ==> !(#[trigger] tbl.ctor_names(tbl.owner_index(name))[d]).same(name),
    ensures
        tbl.discriminant(name) == c,
{
    let names = tbl.ctor_names(tbl.owner_index(name));
    lemma_first_pos_none(names, name, c);
    lemma_first_pos_stable(names, name, c + 1, names.len() as int);
}

/// Once a match is found among the first `i`, looking further changes nothing.
pub proof fn lemma_first_pos_stable(names: Seq<Symbol>, name: Symbol, i: int, k: int)
    requires
        0 <= i <= k <= names.len(),
        first_pos(names, name, i) >= 0,
    ensures
        first_pos(names, name, k) == first_pos(names, name, i),
    decreases k,
{
    if i < k {
        lemma_first_pos_stable(names, name, i, k - 1);
    }
}

pub open spec fn is_core_exprs<Ty>(s: Seq<Expr<Ty>>, k: int) -> bool
    decreases s, k,
{
    if k <= 0 || k > s.len() {
        true
    } else {
        is_core_exprs(s, k - 1) && is_core_expr(s[k - 1])
    }
}

pub open spec fn is_core_expr<Ty>(e: Expr<Ty>) -> bool
    decreases e, 0int,
{
    match e {
        Expr::Binds { binds, ret, .. } => is_core_stmts(binds@, binds@.len() as int) && is_core_expr(*ret),
        Expr::BinOp { l, r, .. } => is_core_expr(*l) && is_core_expr(*r),
        Expr::Fn { body, .. } => is_core_expr(*body),
        Expr::App { fun, arg, .. } => is_core_expr(*fun) && is_core_expr(*arg),
        Expr::If { .. } => false,
        Expr::Case { cond, clauses, .. } => is_core_expr(*cond) && is_core_clauses(clauses@, clauses@.len() as int),
        Expr::Tuple { tuple, .. } => is_core_exprs(tuple@, tuple@.len() as int),
        Expr::Constructor { arg, .. } => match arg {
            Some(a) => is_core_expr(*a),
            None => true,
        },
        Expr::Sym { .. } => true,
        Expr::Lit { .. } => true,
    }
}

pub open spec fn is_core_clauses<Ty>(s: Seq<(Pattern<Ty>, Expr<Ty>)>, k: int) -> bool
    decreases s, k,
{
    if k <= 0 || k > s.len() {
        true
    } else {
        is_core_clauses(s, k - 1) && is_core_expr(s[k - 1].1)
    }
}

pub open spec fn is_core_stmt<Ty>(st: Statement<Ty>) -> bool
    decreases st, 0int,
{
    match st {
        Statement::Datatype { .. } => true,
        Statement::Val { expr, .. } => is_core_expr(expr),
        Statement::Fun { .. } => false,
    }
}

pub open spec fn is_core_stmts<Ty>(s: Seq<Statement<Ty>>, k: int) -> bool
    decreases s, k,
{
    if k <= 0 || k > s.len() {
        true
    } else {
        is_core_stmts(s, k - 1) && is_core_stmt(s[k - 1])
    }
}

} // verus!
