use webml::ast::{Expr, Pattern, Statement, AST};
use webml::desugar::Desugar;
use webml::prim::{Id, Literal, Symbol};

fn sym(name: &str, id: u64) -> Symbol {
    Symbol(name.to_string(), id)
}

fn int_lit(v: i64) -> Expr<()> {
    Expr::Lit { ty: (), value: Literal::Int(v) }
}

fn var(name: &str, id: u64) -> Expr<()> {
    Expr::Sym { ty: (), name: sym(name, id) }
}

fn is_sym(s: &Symbol, name: &str, id: u64) -> bool {
    s.0 == name && s.1 == id
}

fn is_int(e: &Expr<()>, v: i64) -> bool {
    matches!(e, Expr::Lit { value: Literal::Int(x), .. } if *x == v)
}

#[test]
fn if_becomes_two_clause_case() {
    let e = Expr::If {
        ty: (),
        cond: Box::new(Expr::Constructor { ty: (), arg: None, name: sym("true", 0) }),
        on_true: Box::new(int_lit(1)),
        on_false: Box::new(int_lit(2)),
    };
    let ast = AST(vec![Statement::Val { rec: false, pattern: Pattern::Wildcard { ty: () }, expr: e }]);
    let mut d = Desugar::new(Id::new());
    let out = d.transform_ast(ast);
    assert_eq!(out.0.len(), 1);
    match &out.0[0] {
        Statement::Val { expr: Expr::Case { cond, clauses, .. }, .. } => {
            assert!(matches!(&**cond, Expr::Constructor { name, arg: None, .. } if is_sym(name, "true", 0)));
            assert_eq!(clauses.len(), 2);
            assert!(matches!(&clauses[0].0, Pattern::Constructor { name, arg: None, .. } if is_sym(name, "true", 0)));
            assert!(is_int(&clauses[0].1, 1));
            assert!(matches!(&clauses[1].0, Pattern::Constructor { name, arg: None, .. } if is_sym(name, "false", 0)));
            assert!(is_int(&clauses[1].1, 2));
        },
        _ => panic!("conditional was not rewritten into a case"),
    }
}

#[test]
fn nested_if_is_rewritten_everywhere() {
    let inner = Expr::If {
        ty: (),
        cond: Box::new(var("b", 2)),
        on_true: Box::new(int_lit(3)),
        on_false: Box::new(int_lit(4)),
    };
    let e = Expr::Tuple { ty: (), tuple: vec![int_lit(0), inner] };
    let mut d = Desugar::new(Id::new());
    let out = d.transform_ast(AST(vec![Statement::Val { rec: false, pattern: Pattern::Wildcard { ty: () }, expr: e }]));
    match &out.0[0] {
        Statement::Val { expr: Expr::Tuple { tuple, .. }, .. } => {
            assert!(is_int(&tuple[0], 0));
            assert!(matches!(&tuple[1], Expr::Case { clauses, .. } if clauses.len() == 2));
        },
        _ => panic!("tuple lost"),
    }
}

#[test]
fn curried_function_becomes_nested_lambdas() {
    // fun add x y = x + y
    let body = Expr::BinOp {
        op: sym("+", 0),
        ty: (),
        l: Box::new(var("x", 1)),
        r: Box::new(var("y", 2)),
    };
    let stmt = Statement::Fun {
        name: sym("add", 3),
        params: vec![Pattern::Variable { name: sym("x", 1), ty: () }, Pattern::Variable { name: sym("y", 2), ty: () }],
        expr: body,
    };
    let mut d = Desugar::new(Id::starting_at(10));
    let out = d.transform_ast(AST(vec![stmt]));
    match &out.0[0] {
        Statement::Val { rec, pattern: Pattern::Variable { name, .. }, expr } => {
            assert!(*rec);
            assert!(is_sym(name, "add", 3));
            // the last parameter draws the first fresh name
            match expr {
                Expr::Fn { param: p1, body, .. } => {
                    assert!(is_sym(p1, "#arg", 11));
                    match &**body {
                        Expr::Case { cond, clauses, .. } => {
                            assert!(matches!(&**cond, Expr::Sym { name, .. } if is_sym(name, "#arg", 11)));
                            assert_eq!(clauses.len(), 1);
                            assert!(matches!(&clauses[0].0, Pattern::Variable { name, .. } if is_sym(name, "x", 1)));
                            match &clauses[0].1 {
                                Expr::Fn { param: p2, body, .. } => {
                                    assert!(is_sym(p2, "#arg", 10));
                                    match &**body {
                                        Expr::Case { cond, clauses, .. } => {
                                            assert!(matches!(&**cond, Expr::Sym { name, .. } if is_sym(name, "#arg", 10)));
                                            assert!(matches!(&clauses[0].0, Pattern::Variable { name, .. } if is_sym(name, "y", 2)));
                                            assert!(matches!(&clauses[0].1, Expr::BinOp { op, .. } if is_sym(op, "+", 0)));
                                        },
                                        _ => panic!("inner body is not a case"),
                                    }
                                },
                                _ => panic!("inner function missing"),
                            }
                        },
                        _ => panic!("outer body is not a case"),
                    }
                },
                _ => panic!("not a function"),
            }
        },
        _ => panic!("function not bound by a recursive val"),
    }
}

#[test]
fn canonical_tree_is_left_unchanged() {
    let e = Expr::App {
        ty: (),
        fun: Box::new(Expr::Fn { ty: (), param: sym("z", 5), body: Box::new(var("z", 5)) }),
        arg: Box::new(Expr::Tuple { ty: (), tuple: vec![int_lit(7), var("w", 6)] }),
    };
    let stmts = vec![
        Statement::Datatype { name: sym("t", 1), constructors: vec![(sym("A", 2), None)] },
        Statement::Val { rec: false, pattern: Pattern::Variable { name: sym("v", 4), ty: () }, expr: e },
    ];
    let mut d = Desugar::new(Id::starting_at(3));
    let out = d.transform_ast(AST(stmts));
    assert_eq!(d.gensym().1, 3);
    assert_eq!(out.0.len(), 2);
    assert!(matches!(&out.0[0], Statement::Datatype { name, constructors } if is_sym(name, "t", 1) && constructors.len() == 1));
    match &out.0[1] {
        Statement::Val { rec: false, pattern: Pattern::Variable { name, .. }, expr: Expr::App { fun, arg, .. } } => {
            assert!(is_sym(name, "v", 4));
            assert!(matches!(&**fun, Expr::Fn { param, body, .. } if is_sym(param, "z", 5) && matches!(&**body, Expr::Sym { name, .. } if is_sym(name, "z", 5))));
            assert!(matches!(&**arg, Expr::Tuple { tuple, .. } if tuple.len() == 2 && is_int(&tuple[0], 7)));
        },
        _ => panic!("canonical statement changed shape"),
    }
}

#[test]
fn gensym_counts_up() {
    let mut d = Desugar::new(Id::new());
    let a = d.gensym();
    let b = d.gensym();
    assert!(is_sym(&a, "#arg", 0));
    assert!(is_sym(&b, "#arg", 1));
}
