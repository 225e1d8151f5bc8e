use weld::ast::{BinOpKind, BuilderKind, Expr, ExprKind, Iter, Parameter, ScalarKind, Symbol, Type, TypedExpr, TypedParameter};

fn i32_ty() -> Type {
    Type::Scalar(ScalarKind::I32)
}

fn samples() -> Vec<Type> {
    vec![
        Type::Scalar(ScalarKind::Bool),
        Type::Scalar(ScalarKind::I32),
        Type::Scalar(ScalarKind::I64),
        Type::Scalar(ScalarKind::F32),
        Type::Scalar(ScalarKind::F64),
        Type::Vector(Box::new(i32_ty())),
        Type::Vector(Box::new(Type::Vector(Box::new(i32_ty())))),
        Type::Builder(BuilderKind::Appender(Box::new(i32_ty()))),
        Type::Builder(BuilderKind::Appender(Box::new(Type::Scalar(ScalarKind::I64)))),
        Type::Builder(BuilderKind::Merger(Box::new(i32_ty()), BinOpKind::Add)),
        Type::Builder(BuilderKind::Merger(Box::new(i32_ty()), BinOpKind::Multiply)),
        Type::Struct(vec![]),
        Type::Struct(vec![i32_ty()]),
        Type::Struct(vec![i32_ty(), Type::Scalar(ScalarKind::Bool)]),
        Type::Struct(vec![Type::Scalar(ScalarKind::Bool), i32_ty()]),
        Type::Function(vec![], Box::new(i32_ty())),
        Type::Function(vec![i32_ty()], Box::new(i32_ty())),
        Type::Function(vec![i32_ty()], Box::new(Type::Scalar(ScalarKind::Bool))),
        Type::Function(vec![i32_ty(), i32_ty()], Box::new(i32_ty())),
    ]
}

#[test]
fn types_are_equal_to_themselves_only() {
    let a = samples();
    let b = samples();
    for i in 0..a.len() {
        for j in 0..b.len() {
            assert_eq!(a[i] == b[j], i == j);
        }
    }
}

#[test]
fn a_clone_of_a_type_is_equal_to_it() {
    for t in samples() {
        assert!(t.clone() == t);
    }
    let b = BuilderKind::Merger(Box::new(i32_ty()), BinOpKind::Add);
    assert!(b.clone() == b);
    assert!(b != BuilderKind::Appender(Box::new(i32_ty())));
}

fn node(kind: ExprKind<Type>) -> TypedExpr {
    Expr { ty: i32_ty(), kind }
}

fn lit(v: i32) -> TypedExpr {
    node(ExprKind::I32Literal(v))
}

fn exprs() -> Vec<TypedExpr> {
    let x = Symbol { name: "x".to_string(), id: 0 };
    let y = Symbol { name: "y".to_string(), id: 0 };
    vec![
        lit(1),
        lit(2),
        Expr { ty: Type::Scalar(ScalarKind::I64), kind: ExprKind::I32Literal(1) },
        node(ExprKind::I64Literal(1)),
        node(ExprKind::BoolLiteral(true)),
        node(ExprKind::F32Literal(1.5f32.to_bits())),
        node(ExprKind::F64Literal(1.5f64.to_bits())),
        node(ExprKind::Ident(x.clone())),
        node(ExprKind::Ident(y.clone())),
        node(ExprKind::NewBuilder),
        node(ExprKind::BinOp { kind: BinOpKind::Add, left: Box::new(lit(1)), right: Box::new(lit(2)) }),
        node(ExprKind::BinOp { kind: BinOpKind::Xor, left: Box::new(lit(1)), right: Box::new(lit(2)) }),
        node(ExprKind::BinOp { kind: BinOpKind::Add, left: Box::new(lit(2)), right: Box::new(lit(1)) }),
        node(ExprKind::MakeStruct { elems: vec![lit(1)] }),
        node(ExprKind::MakeVector { elems: vec![lit(1)] }),
        node(ExprKind::MakeVector { elems: vec![lit(1), lit(1)] }),
        node(ExprKind::GetField { expr: Box::new(lit(1)), index: 0 }),
        node(ExprKind::GetField { expr: Box::new(lit(1)), index: 1 }),
        node(ExprKind::Length { data: Box::new(lit(1)) }),
        node(ExprKind::Res { builder: Box::new(lit(1)) }),
        node(ExprKind::Let { name: x.clone(), value: Box::new(lit(1)), body: Box::new(lit(2)) }),
        node(ExprKind::Let { name: y.clone(), value: Box::new(lit(1)), body: Box::new(lit(2)) }),
        node(ExprKind::Merge { builder: Box::new(lit(1)), value: Box::new(lit(2)) }),
        node(ExprKind::If {
            cond: Box::new(lit(1)),
            on_true: Box::new(lit(2)),
            on_false: Box::new(lit(3)),
        }),
        node(ExprKind::Lambda {
            params: vec![Parameter { name: x.clone(), ty: i32_ty() }],
            body: Box::new(lit(1)),
        }),
        node(ExprKind::Lambda {
            params: vec![Parameter { name: y.clone(), ty: i32_ty() }],
            body: Box::new(lit(1)),
        }),
        node(ExprKind::Lambda {
            params: vec![Parameter { name: x.clone(), ty: Type::Scalar(ScalarKind::I64) }],
            body: Box::new(lit(1)),
        }),
        node(ExprKind::Lambda { params: vec![], body: Box::new(lit(1)) }),
        node(ExprKind::Apply { func: Box::new(lit(1)), params: vec![lit(2)] }),
        node(ExprKind::Apply { func: Box::new(lit(1)), params: vec![] }),
        node(ExprKind::For {
            iters: vec![Iter { data: Box::new(lit(1)), start: Some(Box::new(lit(2))), end: None, stride: None }],
            builder: Box::new(lit(3)),
            func: Box::new(lit(4)),
        }),
        node(ExprKind::For {
            iters: vec![Iter { data: Box::new(lit(1)), start: None, end: Some(Box::new(lit(2))), stride: None }],
            builder: Box::new(lit(3)),
            func: Box::new(lit(4)),
        }),
        node(ExprKind::For {
            iters: vec![
                Iter { data: Box::new(lit(1)), start: None, end: None, stride: None },
                Iter { data: Box::new(lit(2)), start: None, end: None, stride: None },
            ],
            builder: Box::new(lit(3)),
            func: Box::new(lit(4)),
        }),
    ]
}

#[test]
fn expressions_are_equal_to_themselves_only() {
    let a = exprs();
    let b = exprs();
    for i in 0..a.len() {
        for j in 0..b.len() {
            assert_eq!(a[i] == b[j], i == j);
            assert_eq!(a[i].kind == b[j].kind, i == j || (i == 0 && j == 2) || (i == 2 && j == 0));
        }
    }
}

#[test]
fn a_clone_of_an_expression_is_equal_to_it() {
    for e in exprs() {
        assert!(e.clone() == e);
        assert!(e.kind.clone() == e.kind);
    }
}

#[test]
fn float_constants_are_equal_as_numbers() {
    let nan = node(ExprKind::F32Literal(f32::NAN.to_bits()));
    assert!(nan != nan.clone());
    let zero = node(ExprKind::F64Literal(0.0f64.to_bits()));
    let minus_zero = node(ExprKind::F64Literal((-0.0f64).to_bits()));
    assert!(zero == minus_zero);
}

#[test]
fn parameters_and_iterators_compare_by_their_parts() {
    let x = Symbol { name: "x".to_string(), id: 0 };
    let p: TypedParameter = Parameter { name: x.clone(), ty: i32_ty() };
    assert!(p.clone() == p);
    assert!(p != Parameter { name: x.clone(), ty: Type::Scalar(ScalarKind::Bool) });
    assert!(p != Parameter { name: Symbol { name: "x".to_string(), id: 1 }, ty: i32_ty() });
    let a = Iter { data: Box::new(lit(1)), start: Some(Box::new(lit(2))), end: None, stride: None };
    let b = Iter { data: Box::new(lit(1)), start: None, end: Some(Box::new(lit(2))), stride: None };
    let c = Iter { data: Box::new(lit(1)), start: Some(Box::new(lit(3))), end: None, stride: None };
    assert!(a.clone() == a);
    assert!(a != b);
    assert!(a != c);
}
