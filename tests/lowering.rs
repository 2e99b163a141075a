use webml::ast::{self, Pattern, Statement, SymbolTable, Type, TypeInfo, AST};
use webml::ast2hir::AST2HIR;
use webml::hir::{self, HTy};
use webml::prim::{Id, Literal, Symbol};

fn sym(name: &str, id: u64) -> Symbol {
    Symbol(name.to_string(), id)
}

fn is_sym(s: &Symbol, name: &str, id: u64) -> bool {
    s.0 == name && s.1 == id
}

fn abc_table() -> SymbolTable {
    SymbolTable {
        types: vec![TypeInfo {
            name: sym("abc", 1),
            constructors: vec![(sym("A", 2), None), (sym("B", 3), Some(Type::Int)), (sym("C", 4), None)],
        }],
        owners: vec![(sym("A", 2), sym("abc", 1)), (sym("B", 3), sym("abc", 1)), (sym("C", 4), sym("abc", 1))],
    }
}

fn int_lit(v: i64) -> ast::Expr<Type> {
    ast::Expr::Lit { ty: Type::Int, value: Literal::Int(v) }
}

#[test]
fn discriminants_follow_declaration_order() {
    let lower = AST2HIR::new(Id::new(), abc_table());
    assert_eq!(lower.conv_constructor_name(&sym("A", 2)), 0);
    assert_eq!(lower.conv_constructor_name(&sym("B", 3)), 1);
    assert_eq!(lower.conv_constructor_name(&sym("C", 4)), 2);
    // asking again gives the same answers
    assert_eq!(lower.conv_constructor_name(&sym("C", 4)), 2);
    assert_eq!(lower.conv_constructor_name(&sym("A", 2)), 0);
}

#[test]
fn constructor_expressions_lower_to_discriminants() {
    let dt = || Type::Datatype(sym("abc", 1));
    let e = ast::Expr::Tuple {
        ty: Type::Tuple(vec![dt(), dt()]),
        tuple: vec![
            ast::Expr::Constructor { ty: dt(), arg: None, name: sym("C", 4) },
            ast::Expr::Constructor { ty: dt(), arg: Some(Box::new(int_lit(5))), name: sym("B", 3) },
        ],
    };
    let prog = AST(vec![Statement::Val { rec: false, pattern: Pattern::Variable { name: sym("v", 9), ty: Type::Tuple(vec![dt(), dt()]) }, expr: e }]);
    let mut lower = AST2HIR::new(Id::new(), abc_table());
    let out = lower.conv_ast(&prog);
    assert_eq!(out.0.len(), 1);
    match &out.0[0].expr {
        hir::Expr::Tuple { tys, tuple } => {
            assert_eq!(tys.len(), 2);
            assert!(matches!(&tuple[0], hir::Expr::Constructor { descriminant: 2, arg: None, .. }));
            assert!(matches!(&tuple[1], hir::Expr::Constructor { descriminant: 1, arg: Some(_), .. }));
        },
        _ => panic!("tuple expected"),
    }
}

#[test]
fn datatype_type_lists_all_discriminants() {
    let lower = AST2HIR::new(Id::new(), abc_table());
    match lower.conv_ty(&Type::Datatype(sym("abc", 1))) {
        HTy::Datatype(ds) => {
            assert_eq!(ds.len(), 3);
            assert!(matches!(&ds[0], (0, None)));
            assert!(matches!(&ds[1], (1, Some(HTy::Int))));
            assert!(matches!(&ds[2], (2, None)));
        },
        _ => panic!("datatype expected"),
    }
    match lower.conv_ty(&Type::fun(Type::Int, Type::unit())) {
        HTy::Fun(a, b) => {
            assert!(matches!(*a, HTy::Int));
            assert!(matches!(*b, HTy::Tuple(ref v) if v.is_empty()));
        },
        _ => panic!("function type expected"),
    }
}

#[test]
fn tuple_pattern_expands_into_projections() {
    // val (a, b) = (10, 20)
    let pair = Type::Tuple(vec![Type::Int, Type::Int]);
    let pattern = Pattern::Tuple { tuple: vec![(Type::Int, sym("a", 1)), (Type::Int, sym("b", 2))], ty: pair };
    let expr = ast::Expr::Tuple { ty: Type::Tuple(vec![Type::Int, Type::Int]), tuple: vec![int_lit(10), int_lit(20)] };
    let prog = AST(vec![Statement::Val { rec: false, pattern, expr }]);
    let mut lower = AST2HIR::new(Id::starting_at(4), abc_table());
    let out = lower.conv_ast(&prog);
    assert_eq!(out.0.len(), 3);
    let tmp = &out.0[0];
    assert!(is_sym(&tmp.name, "#g", 4));
    assert!(!tmp.rec);
    assert!(matches!(&tmp.ty, HTy::Tuple(v) if v.len() == 2));
    match &tmp.expr {
        hir::Expr::Case { expr, arms, .. } => {
            match &**expr {
                hir::Expr::Tuple { tuple, .. } => {
                    assert!(matches!(&tuple[0], hir::Expr::Lit { value: Literal::Int(10), .. }));
                    assert!(matches!(&tuple[1], hir::Expr::Lit { value: Literal::Int(20), .. }));
                },
                _ => panic!("scrutinee expected to be the pair"),
            }
            assert_eq!(arms.len(), 1);
            assert!(matches!(&arms[0].0, hir::Pattern::Tuple { tuple, .. } if is_sym(&tuple[0], "a", 1) && is_sym(&tuple[1], "b", 2)));
            match &arms[0].1 {
                hir::Expr::Tuple { tuple, .. } => {
                    assert!(matches!(&tuple[0], hir::Expr::Sym { name, .. } if is_sym(name, "a", 1)));
                    assert!(matches!(&tuple[1], hir::Expr::Sym { name, .. } if is_sym(name, "b", 2)));
                },
                _ => panic!("arm must return the tuple of variables"),
            }
        },
        _ => panic!("case expected"),
    }
    for (k, name) in [(1usize, "a"), (2usize, "b")] {
        let v = &out.0[k];
        assert!(is_sym(&v.name, name, k as u64));
        match &v.expr {
            hir::Expr::Proj { index, tuple, .. } => {
                assert_eq!(*index as usize, k - 1);
                assert!(matches!(&**tuple, hir::Expr::Sym { name, .. } if is_sym(name, "#g", 4)));
            },
            _ => panic!("projection expected"),
        }
    }
}

#[test]
fn variable_and_wildcard_bindings() {
    let prog = AST(vec![
        Statement::Datatype { name: sym("abc", 1), constructors: vec![] },
        Statement::Val { rec: true, pattern: Pattern::Variable { name: sym("f", 7), ty: Type::Int }, expr: int_lit(1) },
        Statement::Val { rec: true, pattern: Pattern::Wildcard { ty: Type::Int }, expr: int_lit(2) },
        Statement::Val { rec: false, pattern: Pattern::Constant { value: 3, ty: Type::Int }, expr: int_lit(3) },
    ]);
    let mut lower = AST2HIR::new(Id::new(), abc_table());
    let out = lower.conv_ast(&prog);
    assert_eq!(out.0.len(), 3);
    assert!(is_sym(&out.0[0].name, "f", 7));
    assert!(out.0[0].rec);
    assert!(is_sym(&out.0[1].name, "#g", 0));
    assert!(!out.0[1].rec);
    assert!(is_sym(&out.0[2].name, "#g", 1));
    assert!(is_sym(&lower.gensym(), "#g", 2));
}

#[test]
fn constructor_pattern_binding_projects_its_argument() {
    let dt = || Type::Datatype(sym("abc", 1));
    let pattern = Pattern::Constructor { name: sym("B", 3), arg: Some((Type::Int, sym("n", 8))), ty: dt() };
    let expr = ast::Expr::Constructor { ty: dt(), arg: Some(Box::new(int_lit(5))), name: sym("B", 3) };
    let mut lower = AST2HIR::new(Id::new(), abc_table());
    let out = lower.conv_ast(&AST(vec![Statement::Val { rec: false, pattern, expr }]));
    assert_eq!(out.0.len(), 2);
    match &out.0[0].expr {
        hir::Expr::Case { arms, .. } => {
            assert!(matches!(&arms[0].0, hir::Pattern::Constructor { descriminant: 1, arg: Some((HTy::Int, n)), .. } if is_sym(n, "n", 8)));
        },
        _ => panic!("case expected"),
    }
    assert!(is_sym(&out.0[1].name, "n", 8));
    assert!(matches!(&out.0[1].expr, hir::Expr::Proj { index: 0, .. }));
}

#[test]
fn patterns_lower_one_to_one() {
    let lower = AST2HIR::new(Id::new(), abc_table());
    assert!(matches!(lower.conv_pat(&Pattern::Constant { value: 4, ty: Type::Int }), hir::Pattern::Constant { value: 4, ty: HTy::Int }));
    assert!(matches!(lower.conv_pat(&Pattern::Wildcard { ty: Type::Real }), hir::Pattern::Var { name, ty: HTy::Real } if is_sym(&name, "_", 0)));
    let p = Pattern::Tuple { tuple: vec![(Type::Int, sym("x", 1)), (Type::Real, sym("y", 2))], ty: Type::Tuple(vec![Type::Int, Type::Real]) };
    let binds = p.binds();
    assert_eq!(binds.len(), 2);
    assert!(is_sym(binds[0].0, "x", 1) && is_sym(binds[1].0, "y", 2));
    assert!(matches!(binds[1].1, Type::Real));
}
