//! Copies of expressions. A copy has the model of the expression it was made from.

use vstd::prelude::*;
use crate::ast::{expr_view, expr_views, iter_children, iter_shape, iter_shapes, iters_children, kind_children, kind_head, lemma_iters_children_agree, opt_child, param_views, Expr, ExprKind, Iter, Parameter, TypeBounds};

verus! {

/// A copy of an annotation.
fn ty_clone<T: TypeBounds>(ty: &T) -> (res: T)
    ensures
        res@ == ty@,
{
    let res = ty.clone();
    proof {
        T::clone_keeps_view(ty, &res);
    }
    res
}

/// A copy of a list of parameters.
fn params_clone<T: TypeBounds>(ps: &Vec<Parameter<T>>) -> (res: Vec<Parameter<T>>)
    ensures
        param_views(res@) == param_views(ps@),
{
    let mut out: Vec<Parameter<T>> = Vec::new();
    let mut i: usize = 0;
    while i < ps.len()
        invariant
            i <= ps.len(),
            out.len() == i,
            forall|j: int| 0 <= j < i ==> out@[j]@ == ps@[j]@,
        decreases ps.len() - i,
    {
        let p = Parameter { name: ps[i].name.clone(), ty: ty_clone(&ps[i].ty) };
        out.push(p);
        i += 1;
    }
    assert(param_views(out@) =~= param_views(ps@));
    out
}

/// A copy of a list of expressions.
fn exprs_clone<T: TypeBounds>(es: &Vec<Expr<T>>) -> (res: Vec<Expr<T>>)
    ensures
        expr_views(res@) == expr_views(es@),
    decreases *es,
{
    let mut out: Vec<Expr<T>> = Vec::new();
    let mut i: usize = 0;
    while i < es.len()
        invariant
            i <= es.len(),
            out.len() == i,
            forall|j: int| 0 <= j < i ==> expr_view(out@[j]) == expr_view(es@[j]),
        decreases es.len() - i,
    {
        let e = expr_clone(&es[i]);
        out.push(e);
        i += 1;
    }
    assert(expr_views(out@) =~= expr_views(es@));
    out
}

/// A copy of an optional expression.
fn opt_clone<T: TypeBounds>(o: &Option<Box<Expr<T>>>) -> (res: Option<Box<Expr<T>>>)
    ensures
        opt_child(res) == opt_child(*o),
        (res is Some) == (*o is Some),
    decreases *o,
{
    match o {
        Some(e) => Some(Box::new(expr_clone(e))),
        None => None,
    }
}

/// A copy of an iterator.
fn iter_clone<T: TypeBounds>(it: &Iter<T>) -> (res: Iter<T>)
    ensures
        iter_children(res) == iter_children(*it),
        iter_shape(res) == iter_shape(*it),
    decreases *it,
{
    Iter {
        data: Box::new(expr_clone(&it.data)),
        start: opt_clone(&it.start),
        end: opt_clone(&it.end),
        stride: opt_clone(&it.stride),
    }
}

/// A copy of a list of iterators.
fn iters_clone<T: TypeBounds>(its: &Vec<Iter<T>>) -> (res: Vec<Iter<T>>)
    ensures
        iters_children(res@, res@.len()) == iters_children(its@, its@.len()),
        iter_shapes(res@) == iter_shapes(its@),
    decreases *its,
{
    let mut out: Vec<Iter<T>> = Vec::new();
    let mut i: usize = 0;
    while i < its.len()
        invariant
            i <= its.len(),
            out.len() == i,
            forall|j: int| 0 <= j < i ==> iter_children(out@[j]) == iter_children(its@[j]),
            forall|j: int| 0 <= j < i ==> iter_shape(out@[j]) == iter_shape(its@[j]),
        decreases its.len() - i,
    {
        let it = iter_clone(&its[i]);
        out.push(it);
        i += 1;
    }
    proof {
        lemma_iters_children_agree(out@, its@, its@.len());
        assert(iter_shapes(out@) =~= iter_shapes(its@));
    }
    out
}

/// A copy of an expression.
fn expr_clone<T: TypeBounds>(e: &Expr<T>) -> (res: Expr<T>)
    ensures
        res@ == e@,
    decreases *e,
{
    Expr { ty: ty_clone(&e.ty), kind: kind_clone(&e.kind) }
}

/// A copy of the kind of a node, with copies of its children.
fn kind_clone<T: TypeBounds>(k: &ExprKind<T>) -> (res: ExprKind<T>)
    ensures
        kind_head(res) == kind_head(*k),
        kind_children(res) == kind_children(*k),
    decreases *k,
{
    match k {
        ExprKind::BoolLiteral(v) => ExprKind::BoolLiteral(*v),
        ExprKind::I32Literal(v) => ExprKind::I32Literal(*v),
        ExprKind::I64Literal(v) => ExprKind::I64Literal(*v),
        ExprKind::F32Literal(v) => ExprKind::F32Literal(*v),
        ExprKind::F64Literal(v) => ExprKind::F64Literal(*v),
        ExprKind::Ident(sym) => ExprKind::Ident(sym.clone()),
        ExprKind::BinOp { kind, left, right } => ExprKind::BinOp {
            kind: *kind,
            left: Box::new(expr_clone(left)),
            right: Box::new(expr_clone(right)),
        },
        ExprKind::MakeStruct { elems } => ExprKind::MakeStruct { elems: exprs_clone(elems) },
        ExprKind::MakeVector { elems } => ExprKind::MakeVector { elems: exprs_clone(elems) },
        ExprKind::GetField { expr, index } => ExprKind::GetField {
            expr: Box::new(expr_clone(expr)),
            index: *index,
        },
        ExprKind::Length { data } => ExprKind::Length { data: Box::new(expr_clone(data)) },
        ExprKind::Let { name, value, body } => ExprKind::Let {
            name: name.clone(),
            value: Box::new(expr_clone(value)),
            body: Box::new(expr_clone(body)),
        },
        ExprKind::If { cond, on_true, on_false } => ExprKind::If {
            cond: Box::new(expr_clone(cond)),
            on_true: Box::new(expr_clone(on_true)),
            on_false: Box::new(expr_clone(on_false)),
        },
        ExprKind::Lambda { params, body } => ExprKind::Lambda {
            params: params_clone(params),
            body: Box::new(expr_clone(body)),
        },
        ExprKind::Apply { func, params } => ExprKind::Apply {
            func: Box::new(expr_clone(func)),
            params: exprs_clone(params),
        },
        ExprKind::NewBuilder => ExprKind::NewBuilder,
        ExprKind::For { iters, builder, func } => ExprKind::For {
            iters: iters_clone(iters),
            builder: Box::new(expr_clone(builder)),
            func: Box::new(expr_clone(func)),
        },
        ExprKind::Merge { builder, value } => ExprKind::Merge {
            builder: Box::new(expr_clone(builder)),
            value: Box::new(expr_clone(value)),
        },
        ExprKind::Res { builder } => ExprKind::Res { builder: Box::new(expr_clone(builder)) },
    }
}

impl<T: TypeBounds> Clone for Parameter<T> {
    fn clone(&self) -> (res: Self)
        ensures
            res@ == self@,
    {
        Parameter { name: self.name.clone(), ty: ty_clone(&self.ty) }
    }
}

impl<T: TypeBounds> Clone for Iter<T> {
    fn clone(&self) -> (res: Self)
        ensures
            iter_children(res) == iter_children(*self),
            iter_shape(res) == iter_shape(*self),
    {
        iter_clone(self)
    }
}

impl<T: TypeBounds> Clone for ExprKind<T> {
    fn clone(&self) -> (res: Self)
        ensures
            kind_head(res) == kind_head(*self),
            kind_children(res) == kind_children(*self),
    {
        kind_clone(self)
    }
}

impl<T: TypeBounds> Clone for Expr<T> {
    fn clone(&self) -> (res: Self)
        ensures
            res@ == self@,
    {
        expr_clone(self)
    }
}

} // verus!
