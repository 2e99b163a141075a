use webml::ast::{Expr, Pattern, Type, TypeError};
use webml::prim::{Literal, Symbol};

#[test]
fn type_error_descriptions() {
    let mm = TypeError::MisMatch { expected: Type::Int, actual: Type::Real };
    assert_eq!(mm.description(), "type mismatches against expected type");
    assert_eq!(TypeError::CannotInfer.description(), "cannot infer the type");
    assert_eq!(TypeError::FreeVar.description(), "free variable is found");
    let nf = TypeError::NotFunction(Expr::Lit { ty: Type::Int, value: Literal::Int(1) });
    assert_eq!(nf.description(), "not a function");
    assert_eq!(TypeError::ParseError("unexpected token".to_string()).description(), "parse error");
}

#[test]
fn node_types_are_read_back() {
    let e = Expr::Sym { ty: Type::Real, name: Symbol("x".to_string(), 1) };
    assert!(matches!(e.ty(), Type::Real));
    let boxed = Expr::Lit { ty: Type::Int, value: Literal::Int(3) }.boxed();
    assert!(matches!(*boxed, Expr::Lit { value: Literal::Int(3), .. }));
    let p: Pattern<Type> = Pattern::Wildcard { ty: Type::unit() };
    assert!(matches!(p.ty(), Type::Tuple(v) if v.is_empty()));
    assert!(p.binds().is_empty());
    let v: Pattern<()> = Pattern::Variable { name: Symbol("y".to_string(), 2), ty: () };
    let b = v.binds();
    assert_eq!(b.len(), 1);
    assert_eq!(b[0].0 .0, "y");
    assert!(Symbol::new("a").same_as(&Symbol("a".to_string(), 0)));
    assert!(!Symbol::new("a").same_as(&Symbol("a".to_string(), 1)));
}
