use weld::ast::{BinOpKind, Expr, ExprKind, Iter, Parameter, ScalarKind, Symbol, Type, TypedExpr};
use weld::compare::{double_bits_equal, single_bits_equal};

fn i32_ty() -> Type {
    Type::Scalar(ScalarKind::I32)
}

fn sym(name: &str, id: i32) -> Symbol {
    Symbol { name: name.to_string(), id }
}

fn node(ty: Type, kind: ExprKind<Type>) -> TypedExpr {
    Expr { ty, kind }
}

fn lit(v: i32) -> TypedExpr {
    node(i32_ty(), ExprKind::I32Literal(v))
}

fn ident(name: &str, id: i32) -> TypedExpr {
    node(i32_ty(), ExprKind::Ident(sym(name, id)))
}

fn binop(kind: BinOpKind, l: TypedExpr, r: TypedExpr) -> TypedExpr {
    node(i32_ty(), ExprKind::BinOp { kind, left: Box::new(l), right: Box::new(r) })
}

fn let_in(name: Symbol, value: TypedExpr, body: TypedExpr) -> TypedExpr {
    node(i32_ty(), ExprKind::Let { name, value: Box::new(value), body: Box::new(body) })
}

fn lambda(params: Vec<(Symbol, Type)>, body: TypedExpr) -> TypedExpr {
    let mut ps = Vec::new();
    let mut tys = Vec::new();
    for (name, ty) in params {
        tys.push(ty.clone());
        ps.push(Parameter { name, ty });
    }
    node(
        Type::Function(tys, Box::new(i32_ty())),
        ExprKind::Lambda { params: ps, body: Box::new(body) },
    )
}

fn vec_ty() -> Type {
    Type::Vector(Box::new(i32_ty()))
}

fn whole(data: TypedExpr) -> Iter<Type> {
    Iter { data: Box::new(data), start: None, end: None, stride: None }
}

/// `let v = [1, 2]; for(v, ..., newbuilder, |b, x| merge(b, x))` over
/// `n_iters` iterators, with every bound symbol numbered `id`.
fn for_over(n_iters: usize, id: i32) -> TypedExpr {
    let mut iters = Vec::new();
    for _ in 0..n_iters {
        iters.push(whole(node(vec_ty(), ExprKind::Ident(sym("v", id)))));
    }
    let func = lambda(
        vec![(sym("b", id), i32_ty()), (sym("x", id), i32_ty())],
        node(
            i32_ty(),
            ExprKind::Merge { builder: Box::new(ident("b", id)), value: Box::new(ident("x", id)) },
        ),
    );
    let body = node(
        i32_ty(),
        ExprKind::For {
            iters,
            builder: Box::new(node(i32_ty(), ExprKind::NewBuilder)),
            func: Box::new(func),
        },
    );
    let_in(
        sym("v", id),
        node(vec_ty(), ExprKind::MakeVector { elems: vec![lit(1), lit(2)] }),
        body,
    )
}

fn equal(a: &TypedExpr, b: &TypedExpr) -> bool {
    a.compare_ignoring_symbols(b).unwrap()
}

#[test]
fn lambdas_that_differ_in_parameter_names_are_equal() {
    let a = lambda(vec![(sym("a", 0), i32_ty())], ident("a", 0));
    let b = lambda(vec![(sym("b", 0), i32_ty())], ident("b", 0));
    assert_eq!(a.compare_ignoring_symbols(&b).unwrap(), true);
}

#[test]
fn a_for_over_two_iterators_renamed_is_equal() {
    let a = for_over(2, 0);
    let b = for_over(2, 1);
    assert_eq!(a.compare_ignoring_symbols(&b).unwrap(), true);
}

#[test]
fn a_for_over_one_iterator_differs_from_one_over_two() {
    let a = for_over(2, 0);
    let b = for_over(1, 0);
    assert_eq!(a.compare_ignoring_symbols(&b).unwrap(), false);
    assert_eq!(b.compare_ignoring_symbols(&a).unwrap(), false);
}

#[test]
fn a_closed_tree_is_equal_to_itself() {
    let a = for_over(2, 0);
    assert_eq!(a.compare_ignoring_symbols(&a).unwrap(), true);
    let b = let_in(sym("x", 0), lit(1), binop(BinOpKind::Add, ident("x", 0), lit(2)));
    assert_eq!(b.compare_ignoring_symbols(&b).unwrap(), true);
    let c = lit(7);
    assert_eq!(c.compare_ignoring_symbols(&c).unwrap(), true);
}

#[test]
fn a_tree_with_every_id_incremented_is_equal() {
    let a = let_in(
        sym("x", 0),
        lit(1),
        lambda(
            vec![(sym("y", 3), i32_ty())],
            binop(BinOpKind::Multiply, ident("x", 0), ident("y", 3)),
        ),
    );
    let b = let_in(
        sym("x", 1),
        lit(1),
        lambda(
            vec![(sym("y", 4), i32_ty())],
            binop(BinOpKind::Multiply, ident("x", 1), ident("y", 4)),
        ),
    );
    assert_eq!(a.compare_ignoring_symbols(&b).unwrap(), true);
    assert_eq!(b.compare_ignoring_symbols(&a).unwrap(), true);
}

#[test]
fn a_different_literal_is_not_equal_and_no_error() {
    let a = let_in(sym("x", 0), lit(1), binop(BinOpKind::Add, ident("x", 0), lit(2)));
    let b = let_in(sym("x", 0), lit(1), binop(BinOpKind::Add, ident("x", 0), lit(3)));
    assert_eq!(a.compare_ignoring_symbols(&b).unwrap(), false);
    let t = node(Type::Scalar(ScalarKind::Bool), ExprKind::BoolLiteral(true));
    let f = node(Type::Scalar(ScalarKind::Bool), ExprKind::BoolLiteral(false));
    assert_eq!(t.compare_ignoring_symbols(&f).unwrap(), false);
    let l1 = node(Type::Scalar(ScalarKind::I64), ExprKind::I64Literal(1 << 40));
    let l2 = node(Type::Scalar(ScalarKind::I64), ExprKind::I64Literal(1 << 41));
    assert_eq!(l1.compare_ignoring_symbols(&l2).unwrap(), false);
    assert_eq!(l1.compare_ignoring_symbols(&l1).unwrap(), true);
}

#[test]
fn a_different_operator_is_not_equal_and_no_error() {
    let a = let_in(sym("x", 0), lit(1), binop(BinOpKind::Add, ident("x", 0), lit(2)));
    let b = let_in(sym("x", 0), lit(1), binop(BinOpKind::Subtract, ident("x", 0), lit(2)));
    assert_eq!(a.compare_ignoring_symbols(&b).unwrap(), false);
}

#[test]
fn a_free_identifier_is_an_error() {
    let a = ident("x", 0);
    let err = a.compare_ignoring_symbols(&a).unwrap_err();
    assert_eq!(err.description(), "undefined symbol when comparing expressions");
    let b = binop(BinOpKind::Add, lit(1), ident("y", 0));
    assert!(b.compare_ignoring_symbols(&b).is_err());
    let c = let_in(sym("x", 0), lit(1), ident("y", 0));
    assert!(c.compare_ignoring_symbols(&c).is_err());
}

#[test]
fn a_difference_before_a_free_identifier_is_not_equal() {
    let a = binop(BinOpKind::Add, lit(1), ident("y", 0));
    let b = binop(BinOpKind::Add, lit(2), ident("y", 0));
    assert_eq!(a.compare_ignoring_symbols(&b).unwrap(), false);
    let c = node(Type::Scalar(ScalarKind::I64), ExprKind::Ident(sym("y", 0)));
    assert_eq!(ident("y", 0).compare_ignoring_symbols(&c).unwrap(), false);
}

#[test]
fn a_binder_stays_after_its_scope() {
    let e = node(
        Type::Struct(vec![i32_ty(), i32_ty()]),
        ExprKind::MakeStruct { elems: vec![let_in(sym("x", 0), lit(1), ident("x", 0)), ident("x", 0)] },
    );
    assert_eq!(e.compare_ignoring_symbols(&e).unwrap(), true);
}

#[test]
fn the_name_of_a_let_is_bound_in_its_value() {
    let a = let_in(sym("x", 0), ident("x", 0), lit(1));
    let b = let_in(sym("y", 0), ident("y", 0), lit(1));
    assert_eq!(a.compare_ignoring_symbols(&b).unwrap(), true);
}

#[test]
fn annotations_are_compared_first() {
    let a = node(i32_ty(), ExprKind::I32Literal(1));
    let b = node(Type::Scalar(ScalarKind::I64), ExprKind::I32Literal(1));
    assert_eq!(a.compare_ignoring_symbols(&b).unwrap(), false);
    let v1 = node(Type::Vector(Box::new(i32_ty())), ExprKind::MakeVector { elems: vec![] });
    let v2 = node(
        Type::Vector(Box::new(Type::Scalar(ScalarKind::Bool))),
        ExprKind::MakeVector { elems: vec![] },
    );
    assert_eq!(v1.compare_ignoring_symbols(&v2).unwrap(), false);
    assert_eq!(v1.compare_ignoring_symbols(&v1).unwrap(), true);
}

#[test]
fn different_kinds_are_not_equal() {
    let s = node(i32_ty(), ExprKind::MakeStruct { elems: vec![lit(1)] });
    let v = node(i32_ty(), ExprKind::MakeVector { elems: vec![lit(1)] });
    assert_eq!(s.compare_ignoring_symbols(&v).unwrap(), false);
    let l = node(i32_ty(), ExprKind::Length { data: Box::new(lit(1)) });
    let r = node(i32_ty(), ExprKind::Res { builder: Box::new(lit(1)) });
    assert_eq!(l.compare_ignoring_symbols(&r).unwrap(), false);
    assert_eq!(lit(1).compare_ignoring_symbols(&ident("x", 0)).unwrap(), false);
    assert_eq!(ident("x", 0).compare_ignoring_symbols(&lit(1)).unwrap(), false);
}

#[test]
fn field_indices_are_compared() {
    let a = node(i32_ty(), ExprKind::GetField { expr: Box::new(lit(1)), index: 0 });
    let b = node(i32_ty(), ExprKind::GetField { expr: Box::new(lit(1)), index: 1 });
    assert_eq!(a.compare_ignoring_symbols(&b).unwrap(), false);
    assert_eq!(a.compare_ignoring_symbols(&a).unwrap(), true);
}

#[test]
fn the_numbers_of_children_are_compared() {
    let a = node(i32_ty(), ExprKind::MakeStruct { elems: vec![lit(1), lit(2)] });
    let b = node(i32_ty(), ExprKind::MakeStruct { elems: vec![lit(1)] });
    assert_eq!(a.compare_ignoring_symbols(&b).unwrap(), false);
    let f = node(i32_ty(), ExprKind::Apply { func: Box::new(lit(0)), params: vec![lit(1)] });
    let g = node(i32_ty(), ExprKind::Apply { func: Box::new(lit(0)), params: vec![] });
    assert_eq!(f.compare_ignoring_symbols(&g).unwrap(), false);
    assert_eq!(f.compare_ignoring_symbols(&f).unwrap(), true);
}

#[test]
fn lambdas_need_the_same_parameter_types() {
    let a = lambda(vec![(sym("a", 0), i32_ty())], lit(1));
    let mut b = lambda(vec![(sym("a", 0), Type::Scalar(ScalarKind::I64))], lit(1));
    b.ty = a.ty.clone();
    assert_eq!(a.compare_ignoring_symbols(&b).unwrap(), false);
    let mut c = lambda(vec![(sym("a", 0), i32_ty()), (sym("b", 0), i32_ty())], lit(1));
    c.ty = a.ty.clone();
    assert_eq!(a.compare_ignoring_symbols(&c).unwrap(), false);
    assert_eq!(c.compare_ignoring_symbols(&a).unwrap(), false);
}

#[test]
fn a_lambda_that_fails_binds_nothing() {
    let a = node(
        i32_ty(),
        ExprKind::MakeStruct {
            elems: vec![lambda(vec![(sym("a", 0), i32_ty())], lit(1)), ident("a", 0)],
        },
    );
    assert_eq!(a.compare_ignoring_symbols(&a).unwrap(), true);
    let free = node(i32_ty(), ExprKind::MakeStruct { elems: vec![lit(1), ident("a", 0)] });
    assert!(free.compare_ignoring_symbols(&free).is_err());
}

#[test]
fn an_identifier_must_match_the_recorded_symbol() {
    let a = let_in(sym("x", 0), lit(1), ident("x", 0));
    let b = let_in(sym("y", 0), lit(1), ident("z", 0));
    assert_eq!(a.compare_ignoring_symbols(&b).unwrap(), false);
    let c = let_in(sym("y", 0), lit(1), ident("y", 1));
    assert_eq!(a.compare_ignoring_symbols(&c).unwrap(), false);
}

#[test]
fn a_later_binding_of_a_symbol_wins() {
    let a = let_in(sym("x", 0), lit(1), let_in(sym("x", 0), lit(2), ident("x", 0)));
    let b = let_in(sym("p", 0), lit(1), let_in(sym("q", 0), lit(2), ident("q", 0)));
    let c = let_in(sym("p", 0), lit(1), let_in(sym("q", 0), lit(2), ident("p", 0)));
    assert_eq!(a.compare_ignoring_symbols(&b).unwrap(), true);
    assert_eq!(a.compare_ignoring_symbols(&c).unwrap(), false);
}

#[test]
fn two_symbols_may_stand_for_one() {
    let a = let_in(
        sym("x", 0),
        lit(1),
        let_in(sym("y", 0), lit(2), binop(BinOpKind::Add, ident("x", 0), ident("y", 0))),
    );
    let b = let_in(
        sym("z", 0),
        lit(1),
        let_in(sym("z", 0), lit(2), binop(BinOpKind::Add, ident("z", 0), ident("z", 0))),
    );
    assert_eq!(a.compare_ignoring_symbols(&b).unwrap(), true);
    assert_eq!(b.compare_ignoring_symbols(&a).unwrap(), false);
}

#[test]
fn fors_are_compared_by_their_children_alone() {
    let with_start = node(
        i32_ty(),
        ExprKind::For {
            iters: vec![Iter {
                data: Box::new(lit(1)),
                start: Some(Box::new(lit(2))),
                end: None,
                stride: None,
            }],
            builder: Box::new(lit(3)),
            func: Box::new(lit(4)),
        },
    );
    let with_stride = node(
        i32_ty(),
        ExprKind::For {
            iters: vec![Iter {
                data: Box::new(lit(1)),
                start: None,
                end: None,
                stride: Some(Box::new(lit(2))),
            }],
            builder: Box::new(lit(3)),
            func: Box::new(lit(4)),
        },
    );
    assert_eq!(with_start.compare_ignoring_symbols(&with_stride).unwrap(), true);
    assert!(with_start != with_stride);
}

#[test]
fn the_first_error_ends_the_comparison() {
    let a = node(i32_ty(), ExprKind::MakeStruct { elems: vec![ident("x", 0), lit(1)] });
    let b = node(i32_ty(), ExprKind::MakeStruct { elems: vec![ident("x", 0), lit(2)] });
    assert!(a.compare_ignoring_symbols(&b).is_err());
    let c = node(i32_ty(), ExprKind::MakeStruct { elems: vec![lit(1), ident("x", 0)] });
    let d = node(i32_ty(), ExprKind::MakeStruct { elems: vec![lit(2), ident("x", 0)] });
    assert_eq!(c.compare_ignoring_symbols(&d).unwrap(), false);
}

fn single(v: f32) -> TypedExpr {
    node(Type::Scalar(ScalarKind::F32), ExprKind::F32Literal(v.to_bits()))
}

fn double(v: f64) -> TypedExpr {
    node(Type::Scalar(ScalarKind::F64), ExprKind::F64Literal(v.to_bits()))
}

#[test]
fn float_constants_are_compared_as_numbers() {
    assert!(equal(&single(1.5), &single(1.5)));
    assert!(!equal(&single(1.5), &single(2.5)));
    assert!(equal(&single(0.0), &single(-0.0)));
    assert!(!equal(&single(f32::NAN), &single(f32::NAN)));
    assert!(equal(&single(f32::INFINITY), &single(f32::INFINITY)));
    assert!(!equal(&single(f32::INFINITY), &single(f32::NEG_INFINITY)));
    assert!(equal(&double(1.5), &double(1.5)));
    assert!(!equal(&double(1.5), &double(2.5)));
    assert!(equal(&double(0.0), &double(-0.0)));
    assert!(!equal(&double(f64::NAN), &double(f64::NAN)));
    assert!(equal(&double(f64::NEG_INFINITY), &double(f64::NEG_INFINITY)));
    assert!(!equal(&single(1.0), &double(1.0)));
}

#[test]
fn equality_of_bits_is_equality_of_floats() {
    let singles: [f32; 12] = [
        0.0,
        -0.0,
        1.0,
        -1.0,
        f32::MIN_POSITIVE,
        f32::MAX,
        f32::MIN,
        f32::INFINITY,
        f32::NEG_INFINITY,
        f32::NAN,
        -f32::NAN,
        f32::from_bits(0x7f80_0001),
    ];
    for a in singles.iter() {
        for b in singles.iter() {
            assert_eq!(single_bits_equal(a.to_bits(), b.to_bits()), a == b);
        }
    }
    let doubles: [f64; 12] = [
        0.0,
        -0.0,
        1.0,
        -1.0,
        f64::MIN_POSITIVE,
        f64::MAX,
        f64::MIN,
        f64::INFINITY,
        f64::NEG_INFINITY,
        f64::NAN,
        -f64::NAN,
        f64::from_bits(0x7ff0_0000_0000_0001),
    ];
    for a in doubles.iter() {
        for b in doubles.iter() {
            assert_eq!(double_bits_equal(a.to_bits(), b.to_bits()), a == b);
        }
    }
    assert!(single_bits_equal(0x3fc0_0000, 0x3fc0_0000));
    assert!(single_bits_equal(0x8000_0000, 0));
    assert!(!single_bits_equal(0x7fc0_0000, 0x7fc0_0000));
    assert!(double_bits_equal(0x8000_0000_0000_0000, 0));
    assert!(!double_bits_equal(0x7ff8_0000_0000_0000, 0x7ff8_0000_0000_0000));
}
