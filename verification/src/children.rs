//! The children of a node, in canonical order. Every other algorithm on the
//! tree goes through this enumeration.

use vstd::prelude::*;
use vstd::std_specs::iter::IteratorSpec;
use crate::ast::{expr_view, expr_views, iter_children, iters_children, kind_children, opt_child, Expr, ExprKind, Iter, TypeBounds};
use crate::model::ExprView;

verus! {

/// The models of the expressions that a list of references points to.
pub open spec fn views_of<T: TypeBounds>(refs: Seq<&Expr<T>>) -> Seq<ExprView<T::V>> {
    Seq::new(refs.len(), |i: int| expr_view(*refs[i]))
}

/// Appends a reference to each of `elems` to `out`.
fn push_all<'a, T: TypeBounds>(elems: &'a Vec<Expr<T>>, out: &mut Vec<&'a Expr<T>>)
    ensures
        views_of(final(out)@) == views_of(old(out)@) + expr_views(elems@),
{
    let ghost before = views_of(out@);
    let mut i: usize = 0;
    while i < elems.len()
        invariant
            i <= elems.len(),
            views_of(out@) == before + expr_views(elems@).subrange(0, i as int),
        decreases elems.len() - i,
    {
        let ghost prev = out@;
        out.push(&elems[i]);
        assert(views_of(out@) =~= views_of(prev).push(expr_view(elems@[i as int])));
        assert(views_of(out@) =~= before + expr_views(elems@).subrange(0, i + 1));
        i += 1;
    }
    assert(expr_views(elems@).subrange(0, elems@.len() as int) =~= expr_views(elems@));
}

/// Appends a reference to the expression in `part`, if there is one.
fn push_opt<'a, T: TypeBounds>(part: &'a Option<Box<Expr<T>>>, out: &mut Vec<&'a Expr<T>>)
    ensures
        views_of(final(out)@) == views_of(old(out)@) + opt_child(*part),
{
    let ghost prev = out@;
    match part {
        Some(e) => {
            out.push(&**e);
            assert(views_of(out@) =~= views_of(prev) + opt_child(*part));
        },
        None => {
            assert(views_of(out@) =~= views_of(prev) + opt_child(*part));
        },
    }
}

/// Appends references to the children that `iter` adds to its `For`.
pub(crate) fn push_iter<'a, T: TypeBounds>(iter: &'a Iter<T>, out: &mut Vec<&'a Expr<T>>)
    ensures
        views_of(final(out)@) == views_of(old(out)@) + iter_children(*iter),
{
    let ghost prev = out@;
    out.push(&*iter.data);
    assert(views_of(out@) =~= views_of(prev) + seq![expr_view(*iter.data)]);
    push_opt(&iter.start, out);
    push_opt(&iter.end, out);
    push_opt(&iter.stride, out);
    assert(views_of(out@) =~= views_of(prev) + iter_children(*iter));
}

/// The children of a node of this kind as a list of references, in canonical
/// order.
pub fn kind_child_refs<T: TypeBounds>(kind: &ExprKind<T>) -> (res: Vec<&Expr<T>>)
    ensures
        views_of(res@) == kind_children(*kind),
{
    let mut res: Vec<&Expr<T>> = Vec::new();
    assert(views_of(res@) =~= Seq::empty());
    match kind {
        ExprKind::BinOp { left, right, .. } => {
            res.push(&**left);
            res.push(&**right);
        },
        ExprKind::Let { value, body, .. } => {
            res.push(&**value);
            res.push(&**body);
        },
        ExprKind::Lambda { body, .. } => {
            res.push(&**body);
        },
        ExprKind::MakeStruct { elems } => {
            push_all(elems, &mut res);
        },
        ExprKind::MakeVector { elems } => {
            push_all(elems, &mut res);
        },
        ExprKind::GetField { expr, .. } => {
            res.push(&**expr);
        },
        ExprKind::Length { data } => {
            res.push(&**data);
        },
        ExprKind::Merge { builder, value } => {
            res.push(&**builder);
            res.push(&**value);
        },
        ExprKind::Res { builder } => {
            res.push(&**builder);
        },
        ExprKind::For { iters, builder, func } => {
            let mut i: usize = 0;
            while i < iters.len()
                invariant
                    i <= iters.len(),
                    views_of(res@) == iters_children(iters@, i as nat),
                decreases iters.len() - i,
            {
                push_iter(&iters[i], &mut res);
                i += 1;
            }
            let ghost prev = res@;
            res.push(&**builder);
            res.push(&**func);
            assert(views_of(res@) =~= views_of(prev) + seq![expr_view(**builder), expr_view(**func)]);
        },
        ExprKind::If { cond, on_true, on_false } => {
            res.push(&**cond);
            res.push(&**on_true);
            res.push(&**on_false);
        },
        ExprKind::Apply { func, params } => {
            res.push(&**func);
            assert(views_of(res@) =~= seq![expr_view(**func)]);
            push_all(params, &mut res);
        },
        ExprKind::BoolLiteral(_) | ExprKind::I32Literal(_) | ExprKind::I64Literal(_)
        | ExprKind::F32Literal(_) | ExprKind::F64Literal(_) | ExprKind::Ident(_)
        | ExprKind::NewBuilder => {},
    }
    assert(views_of(res@) =~= kind_children(*kind));
    res
}

impl<T: TypeBounds> Expr<T> {
    /// The children of this node as a list of references, in canonical
    /// order.
    pub fn child_refs(&self) -> (res: Vec<&Expr<T>>)
        ensures
            views_of(res@) == self@.children,
    {
        kind_child_refs(&self.kind)
    }

    /// The children of this node, in canonical order.
    pub fn children(&self) -> (res: std::vec::IntoIter<&Expr<T>>)
        ensures
            views_of(res.remaining()) == self@.children,
    {
        self.child_refs().into_iter()
    }
}

} // verus!
