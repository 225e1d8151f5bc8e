use weld::ast::{BinOpKind, Expr, ExprKind, Iter, Parameter, ScalarKind, Symbol, Type, TypedExpr};

fn i32_ty() -> Type {
    Type::Scalar(ScalarKind::I32)
}

fn node(kind: ExprKind<Type>) -> TypedExpr {
    Expr { ty: i32_ty(), kind }
}

fn lit(v: i32) -> TypedExpr {
    node(ExprKind::I32Literal(v))
}

fn boxed(v: i32) -> Box<TypedExpr> {
    Box::new(lit(v))
}

fn values(e: &TypedExpr) -> Vec<i32> {
    e.children()
        .map(|c| match c.kind {
            ExprKind::I32Literal(v) => v,
            _ => -1,
        })
        .collect()
}

fn values_mut(e: &mut TypedExpr) -> Vec<i32> {
    e.children_mut()
        .map(|c| match c.kind {
            ExprKind::I32Literal(v) => v,
            _ => -1,
        })
        .collect()
}

fn every_kind() -> Vec<(TypedExpr, Vec<i32>)> {
    vec![
        (node(ExprKind::BoolLiteral(true)), vec![]),
        (lit(1), vec![]),
        (node(ExprKind::I64Literal(1)), vec![]),
        (node(ExprKind::F32Literal(0)), vec![]),
        (node(ExprKind::F64Literal(0)), vec![]),
        (node(ExprKind::Ident(Symbol { name: "x".to_string(), id: 0 })), vec![]),
        (node(ExprKind::NewBuilder), vec![]),
        (
            node(ExprKind::BinOp { kind: BinOpKind::Add, left: boxed(1), right: boxed(2) }),
            vec![1, 2],
        ),
        (node(ExprKind::MakeStruct { elems: vec![lit(1), lit(2), lit(3)] }), vec![1, 2, 3]),
        (node(ExprKind::MakeStruct { elems: vec![] }), vec![]),
        (node(ExprKind::MakeVector { elems: vec![lit(3), lit(2), lit(1)] }), vec![3, 2, 1]),
        (node(ExprKind::GetField { expr: boxed(1), index: 7 }), vec![1]),
        (node(ExprKind::Length { data: boxed(1) }), vec![1]),
        (
            node(ExprKind::Let {
                name: Symbol { name: "x".to_string(), id: 0 },
                value: boxed(1),
                body: boxed(2),
            }),
            vec![1, 2],
        ),
        (
            node(ExprKind::If { cond: boxed(1), on_true: boxed(2), on_false: boxed(3) }),
            vec![1, 2, 3],
        ),
        (
            node(ExprKind::Lambda {
                params: vec![Parameter { name: Symbol { name: "x".to_string(), id: 0 }, ty: i32_ty() }],
                body: boxed(1),
            }),
            vec![1],
        ),
        (node(ExprKind::Apply { func: boxed(1), params: vec![lit(2), lit(3)] }), vec![1, 2, 3]),
        (node(ExprKind::Apply { func: boxed(1), params: vec![] }), vec![1]),
        (
            node(ExprKind::For {
                iters: vec![
                    Iter { data: boxed(1), start: None, end: None, stride: None },
                    Iter { data: boxed(2), start: Some(boxed(3)), end: Some(boxed(4)), stride: Some(boxed(5)) },
                    Iter { data: boxed(6), start: None, end: Some(boxed(7)), stride: None },
                    Iter { data: boxed(8), start: None, end: None, stride: Some(boxed(9)) },
                ],
                builder: boxed(10),
                func: boxed(11),
            }),
            vec![1, 2, 3, 4, 5, 6, 7, 8, 9, 10, 11],
        ),
        (node(ExprKind::For { iters: vec![], builder: boxed(1), func: boxed(2) }), vec![1, 2]),
        (node(ExprKind::Merge { builder: boxed(1), value: boxed(2) }), vec![1, 2]),
        (node(ExprKind::Res { builder: boxed(1) }), vec![1]),
    ]
}

#[test]
fn children_come_in_canonical_order() {
    for (e, expected) in every_kind() {
        assert_eq!(values(&e), expected);
        assert_eq!(e.child_refs().len(), expected.len());
    }
}

#[test]
fn children_mut_come_in_canonical_order() {
    for (mut e, expected) in every_kind() {
        assert_eq!(values_mut(&mut e), expected);
        assert_eq!(e.child_refs_mut().len(), expected.len());
    }
}

#[test]
fn children_and_children_mut_agree() {
    for (mut e, _) in every_kind() {
        let shared: Vec<TypedExpr> = e.children().map(|c| c.clone()).collect();
        let exclusive: Vec<TypedExpr> = e.children_mut().map(|c| c.clone()).collect();
        assert_eq!(shared.len(), exclusive.len());
        for (a, b) in shared.iter().zip(exclusive.iter()) {
            assert!(a == b);
        }
    }
}

#[test]
fn children_mut_change_the_node_in_place() {
    for (mut e, expected) in every_kind() {
        let before = e.clone();
        for c in e.children_mut() {
            if let ExprKind::I32Literal(v) = c.kind {
                *c = lit(v + 100);
            }
        }
        let after: Vec<i32> = expected.iter().map(|v| v + 100).collect();
        assert_eq!(values(&e), after);
        assert!(e.ty == before.ty);
        assert_eq!(e == before, expected.is_empty());
    }
}

#[test]
fn children_are_the_children_themselves() {
    let inner = node(ExprKind::Length { data: boxed(4) });
    let e = node(ExprKind::Res { builder: Box::new(inner.clone()) });
    let cs = e.child_refs();
    assert_eq!(cs.len(), 1);
    assert!(*cs[0] == inner);
    assert_eq!(values(cs[0]), vec![4]);
}
