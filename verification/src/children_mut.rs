//! Mutable access to the children of a node, in canonical order.

use vstd::prelude::*;
use vstd::std_specs::iter::IteratorSpec;
use crate::ast::{expr_view, expr_views, iter_children, iter_shape, iter_shapes, iters_children, lemma_iters_children_agree, opt_child, Expr, ExprKind, Iter, TypeBounds};
use crate::children::views_of;
use crate::model::ExprView;

verus! {

/// The models of the expressions that a list of mutable references points
/// to, as they are now.
pub open spec fn views_now<T: TypeBounds>(refs: Seq<&mut Expr<T>>) -> Seq<ExprView<T::V>> {
    Seq::new(refs.len(), |i: int| expr_view(*refs[i]))
}

/// Appends a mutable reference to the expression in `part`, if there is one.
fn push_opt_mut<'a, T: TypeBounds>(part: &'a mut Option<Box<Expr<T>>>, out: &mut Vec<&'a mut Expr<T>>)
    ensures
        old(out)@.len() <= final(out)@.len(),
        final(out)@.subrange(0, old(out)@.len() as int) == old(out)@,
        views_now(final(out)@.skip(old(out)@.len() as int)) == opt_child(*old(part)),
        expr_views(final(out)@.skip(old(out)@.len() as int).map_values(|r: &mut Expr<T>| *final(r))) == opt_child(*final(part)),
        (*final(part) is Some) == (*old(part) is Some),
{
    let ghost prev = out@;
    match part {
        Some(e) => {
            let r: &mut Expr<T> = &mut **e;
            out.push(r);
            let ghost rg = out@.last();
            assert(out@.subrange(0, prev.len() as int) =~= prev);
            assert(out@.skip(prev.len() as int) =~= seq![rg]);
            assert(views_now(seq![rg]) =~= seq![expr_view(*rg)]);
            assert(expr_views(seq![rg].map_values(|r: &mut Expr<T>| *final(r))) =~= seq![expr_view(*final(rg))]);
        },
        None => {
            assert(out@.subrange(0, prev.len() as int) =~= prev);
            assert(out@.skip(prev.len() as int) =~= Seq::empty());
            assert(views_now(Seq::<&mut Expr<T>>::empty()) =~= Seq::empty());
            assert(expr_views(Seq::<&mut Expr<T>>::empty().map_values(|r: &mut Expr<T>| *final(r))) =~= Seq::empty());
        },
    }
}

/// What appending to a list of references keeps: the list had `a` and now
/// has `b`, which begins with `a`. Then what was added after position `n0`
/// is what `a` had from there on, followed by what `b` has beyond `a`.
proof fn lemma_appended<X>(a: Seq<X>, b: Seq<X>, n0: int)
    requires
        0 <= n0 <= a.len() <= b.len(),
        b.subrange(0, a.len() as int) == a,
    ensures
        b.skip(n0) == a.skip(n0) + b.skip(a.len() as int),
        b.subrange(0, n0) == a.subrange(0, n0),
{
    assert forall|i: int| 0 <= i < a.len() implies a[i] == b[i] by {
        assert(b.subrange(0, a.len() as int)[i] == b[i]);
    }
    assert(b.skip(n0) =~= a.skip(n0) + b.skip(a.len() as int));
    assert(b.subrange(0, n0) =~= a.subrange(0, n0));
}

/// Appends mutable references to the children that `iter` adds to its `For`.
fn push_iter_mut<'a, T: TypeBounds>(iter: &'a mut Iter<T>, out: &mut Vec<&'a mut Expr<T>>)
    ensures
        old(out)@.len() <= final(out)@.len(),
        final(out)@.subrange(0, old(out)@.len() as int) == old(out)@,
        views_now(final(out)@.skip(old(out)@.len() as int)) == iter_children(*old(iter)),
        expr_views(final(out)@.skip(old(out)@.len() as int).map_values(|r: &mut Expr<T>| *final(r))) == iter_children(*final(iter)),
        iter_shape(*final(iter)) == iter_shape(*old(iter)),
{
    let ghost out0 = out@;
    let ghost n0 = out@.len() as int;
    let Iter { data, start, end, stride } = iter;
    let r: &mut Expr<T> = &mut **data;
    out.push(r);
    let ghost out1 = out@;
    push_opt_mut(start, out);
    let ghost out2 = out@;
    push_opt_mut(end, out);
    let ghost out3 = out@;
    push_opt_mut(stride, out);
    let ghost out4 = out@;
    proof {
        assert(out1.subrange(0, n0) =~= out0);
        lemma_appended(out1, out2, n0);
        lemma_appended(out2, out3, n0);
        lemma_appended(out3, out4, n0);
        let a = out1.skip(n0);
        let b = out2.skip(n0 + 1);
        let c = out3.skip(out2.len() as int);
        let d = out4.skip(out3.len() as int);
        assert(out4.skip(n0) =~= a + b + c + d);
        assert(views_now(a + b + c + d) =~= views_now(a) + views_now(b) + views_now(c) + views_now(d));
        assert(views_now(a) =~= seq![expr_view(*out1[n0])]);
        let f = |r: &mut Expr<T>| *final(r);
        assert(expr_views((a + b + c + d).map_values(f)) =~= expr_views(a.map_values(f)) + expr_views(
            b.map_values(f),
        ) + expr_views(c.map_values(f)) + expr_views(d.map_values(f)));
        assert(expr_views(a.map_values(f)) =~= seq![expr_view(*final(out1[n0]))]);
    }
}

/// Appends a mutable reference to each of `elems`.
fn push_exprs_mut<'a, T: TypeBounds>(elems: &'a mut [Expr<T>], out: &mut Vec<&'a mut Expr<T>>)
    ensures
        old(out)@.len() <= final(out)@.len(),
        final(out)@.subrange(0, old(out)@.len() as int) == old(out)@,
        views_now(final(out)@.skip(old(out)@.len() as int)) == expr_views(old(elems)@),
        expr_views(final(out)@.skip(old(out)@.len() as int).map_values(|r: &mut Expr<T>| *final(r))) == expr_views(final(elems)@),
    decreases old(elems)@.len(),
{
    let ghost out0 = out@;
    let ghost n0 = out@.len() as int;
    let ghost f = |r: &mut Expr<T>| *final(r);
    if elems.len() == 0 {
        assert(out@.subrange(0, n0) =~= out0);
        assert(out@.skip(n0) =~= Seq::empty());
        assert(views_now(Seq::<&mut Expr<T>>::empty()) =~= expr_views(old(elems)@));
        assert(expr_views(Seq::<&mut Expr<T>>::empty().map_values(f)) =~= expr_views(final(elems)@));
    } else {
        let ghost elems0 = elems@;
        let (head, tail) = elems.split_at_mut(1);
        let ghost tail0 = tail@;
        let h = head.first_mut().unwrap();
        out.push(h);
        let ghost out1 = out@;
        push_exprs_mut(tail, out);
        let ghost out2 = out@;
        proof {
            assert(out1.subrange(0, n0) =~= out0);
            lemma_appended(out1, out2, n0);
            let a = out1.skip(n0);
            let b = out2.skip(n0 + 1);
            assert(out2.skip(n0) =~= a + b);
            assert(views_now(a + b) =~= views_now(a) + views_now(b));
            assert(views_now(a) =~= seq![expr_view(*out1[n0])]);
            assert(seq![expr_view(elems0[0])] + expr_views(tail0) =~= expr_views(elems0)) by {
                assert(tail0 =~= elems0.subrange(1, elems0.len() as int));
            }
            assert(expr_views((a + b).map_values(f)) =~= expr_views(a.map_values(f)) + expr_views(b.map_values(f)));
            assert(expr_views(a.map_values(f)) =~= seq![expr_view(*final(out1[n0]))]);
        }
    }
}

/// Appends mutable references to the children that `iters` add to their
/// `For`.
fn push_iters_mut<'a, T: TypeBounds>(iters: &'a mut [Iter<T>], out: &mut Vec<&'a mut Expr<T>>)
    ensures
        old(out)@.len() <= final(out)@.len(),
        final(out)@.subrange(0, old(out)@.len() as int) == old(out)@,
        views_now(final(out)@.skip(old(out)@.len() as int)) == iters_children(old(iters)@, old(iters)@.len()),
        expr_views(final(out)@.skip(old(out)@.len() as int).map_values(|r: &mut Expr<T>| *final(r))) == iters_children(final(iters)@, final(iters)@.len()),
        iter_shapes(final(iters)@) == iter_shapes(old(iters)@),
    decreases old(iters)@.len(),
{
    let ghost out0 = out@;
    let ghost n0 = out@.len() as int;
    let ghost f = |r: &mut Expr<T>| *final(r);
    let n = iters.len();
    if n == 0 {
        assert(out@.subrange(0, n0) =~= out0);
        assert(out@.skip(n0) =~= Seq::empty());
        assert(views_now(Seq::<&mut Expr<T>>::empty()) =~= Seq::empty());
        assert(expr_views(Seq::<&mut Expr<T>>::empty().map_values(f)) =~= Seq::empty());
        assert(iter_shapes(final(iters)@) =~= iter_shapes(old(iters)@));
    } else {
        let ghost iters0 = iters@;
        let (init, last) = iters.split_at_mut(n - 1);
        let ghost init0 = init@;
        let ghost fin_init = final(init)@;
        let ghost fin_last = final(last)@;
        push_iters_mut(init, out);
        let ghost out1 = out@;
        let l = last.first_mut().unwrap();
        let ghost fin_l = *final(l);
        push_iter_mut(l, out);
        let ghost out2 = out@;
        proof {
            lemma_appended(out1, out2, n0);
            let a = out1.skip(n0);
            let b = out2.skip(out1.len() as int);
            assert(out2.skip(n0) =~= a + b);
            assert(views_now(a + b) =~= views_now(a) + views_now(b));
            assert(expr_views((a + b).map_values(f)) =~= expr_views(a.map_values(f)) + expr_views(b.map_values(f)));
            assert(init0 =~= iters0.subrange(0, n - 1));
            lemma_iters_children_agree(init0, iters0, (n - 1) as nat);
            let fin = fin_init + fin_last;
            assert(fin_last =~= seq![fin_l]);
            assert(iter_shapes(fin_init) == iter_shapes(init0));
            assert(iter_shapes(fin_init).len() == fin_init.len());
            assert(iter_shapes(init0).len() == init0.len());
            assert(fin_init.len() == n - 1);
            lemma_iters_children_agree(fin_init, fin, (n - 1) as nat);
            assert(fin[n - 1] == fin_l);
            assert(iters_children(fin, n as nat) == iters_children(fin, (n - 1) as nat) + iter_children(fin_l));
            assert(iter_shapes(fin) =~= iter_shapes(iters0)) by {
                assert forall|i: int| 0 <= i < n implies iter_shapes(fin)[i] == iter_shapes(iters0)[i] by {
                    if i < n - 1 {
                        assert(iter_shapes(fin_init)[i] == iter_shapes(init0)[i]);
                    }
                }
            }
        }
    }
}

impl<T: TypeBounds> Expr<T> {
    /// The children of this node as a list of mutable references, in
    /// canonical order. The references point to the children as they are;
    /// whatever is written through them is the child of this node
    /// afterwards. The annotation and the head of the node stay.
    pub fn child_refs_mut(&mut self) -> (res: Vec<&mut Expr<T>>)
        ensures
            // what the references point to now: the children as they were
            views_now(res@) == old(self)@.children,
            // what they point to when they are given up: the children as
            // they will be
            expr_views(res@.map_values(|r: &mut Expr<T>| *final(r))) == final(self)@.children,
            final(self)@.ty == old(self)@.ty,
            final(self)@.head == old(self)@.head,
    {
        let mut res: Vec<&mut Expr<T>> = Vec::new();
        let ghost f = |r: &mut Expr<T>| *final(r);
        assert(res@.subrange(0, 0) =~= res@);
        match &mut self.kind {
            ExprKind::BinOp { left, right, .. } => {
                let a: &mut Expr<T> = &mut **left;
                let b: &mut Expr<T> = &mut **right;
                res.push(a);
                res.push(b);
                assert(views_now(res@) =~= seq![expr_view(*res@[0]), expr_view(*res@[1])]);
                assert(expr_views(res@.map_values(f)) =~= seq![expr_view(*final(res@[0])), expr_view(*final(res@[1]))]);
            },
            ExprKind::Let { value, body, .. } => {
                let a: &mut Expr<T> = &mut **value;
                let b: &mut Expr<T> = &mut **body;
                res.push(a);
                res.push(b);
                assert(views_now(res@) =~= seq![expr_view(*res@[0]), expr_view(*res@[1])]);
                assert(expr_views(res@.map_values(f)) =~= seq![expr_view(*final(res@[0])), expr_view(*final(res@[1]))]);
            },
            ExprKind::Lambda { body, .. } => {
                let a: &mut Expr<T> = &mut **body;
                res.push(a);
                assert(views_now(res@) =~= seq![expr_view(*res@[0])]);
                assert(expr_views(res@.map_values(f)) =~= seq![expr_view(*final(res@[0]))]);
            },
            ExprKind::MakeStruct { elems } => {
                let s: &mut [Expr<T>] = elems.as_mut_slice();
                push_exprs_mut(s, &mut res);
                assert(res@.skip(0) =~= res@);
            },
            ExprKind::MakeVector { elems } => {
                let s: &mut [Expr<T>] = elems.as_mut_slice();
                push_exprs_mut(s, &mut res);
                assert(res@.skip(0) =~= res@);
            },
            ExprKind::GetField { expr, .. } => {
                let a: &mut Expr<T> = &mut **expr;
                res.push(a);
                assert(views_now(res@) =~= seq![expr_view(*res@[0])]);
                assert(expr_views(res@.map_values(f)) =~= seq![expr_view(*final(res@[0]))]);
            },
            ExprKind::Length { data } => {
                let a: &mut Expr<T> = &mut **data;
                res.push(a);
                assert(views_now(res@) =~= seq![expr_view(*res@[0])]);
                assert(expr_views(res@.map_values(f)) =~= seq![expr_view(*final(res@[0]))]);
            },
            ExprKind::Merge { builder, value } => {
                let a: &mut Expr<T> = &mut **builder;
                let b: &mut Expr<T> = &mut **value;
                res.push(a);
                res.push(b);
                assert(views_now(res@) =~= seq![expr_view(*res@[0]), expr_view(*res@[1])]);
                assert(expr_views(res@.map_values(f)) =~= seq![expr_view(*final(res@[0])), expr_view(*final(res@[1]))]);
            },
            ExprKind::Res { builder } => {
                let a: &mut Expr<T> = &mut **builder;
                res.push(a);
                assert(views_now(res@) =~= seq![expr_view(*res@[0])]);
                assert(expr_views(res@.map_values(f)) =~= seq![expr_view(*final(res@[0]))]);
            },
            ExprKind::For { iters, builder, func } => {
                let s: &mut [Iter<T>] = iters.as_mut_slice();
                let a: &mut Expr<T> = &mut **builder;
                let b: &mut Expr<T> = &mut **func;
                push_iters_mut(s, &mut res);
                let ghost res1 = res@;
                res.push(a);
                res.push(b);
                proof {
                    let n = res1.len() as int;
                    assert(res1.skip(0) =~= res1);
                    let tail = seq![res@[n], res@[n + 1]];
                    assert(res@ =~= res1 + tail);
                    assert(views_now(res1 + tail) =~= views_now(res1) + seq![expr_view(*res@[n]), expr_view(*res@[n + 1])]);
                    assert(expr_views((res1 + tail).map_values(f)) =~= expr_views(res1.map_values(f)) + seq![
                        expr_view(*final(res@[n])),
                        expr_view(*final(res@[n + 1])),
                    ]);
                }
            },
            ExprKind::If { cond, on_true, on_false } => {
                let a: &mut Expr<T> = &mut **cond;
                let b: &mut Expr<T> = &mut **on_true;
                let c: &mut Expr<T> = &mut **on_false;
                res.push(a);
                res.push(b);
                res.push(c);
                assert(views_now(res@) =~= seq![expr_view(*res@[0]), expr_view(*res@[1]), expr_view(*res@[2])]);
                assert(expr_views(res@.map_values(f)) =~= seq![
                    expr_view(*final(res@[0])),
                    expr_view(*final(res@[1])),
                    expr_view(*final(res@[2])),
                ]);
            },
            ExprKind::Apply { func, params } => {
                let a: &mut Expr<T> = &mut **func;
                let s: &mut [Expr<T>] = params.as_mut_slice();
                res.push(a);
                let ghost res1 = res@;
                push_exprs_mut(s, &mut res);
                proof {
                    assert(res@.subrange(0, 1) =~= seq![res@[0]]);
                    let tail = res@.skip(1);
                    assert(res@ =~= seq![res@[0]] + tail);
                    assert(views_now(seq![res@[0]] + tail) =~= seq![expr_view(*res@[0])] + views_now(tail));
                    assert(expr_views((seq![res@[0]] + tail).map_values(f)) =~= seq![expr_view(*final(res@[0]))]
                        + expr_views(tail.map_values(f)));
                }
            },
            ExprKind::BoolLiteral(_) | ExprKind::I32Literal(_) | ExprKind::I64Literal(_)
            | ExprKind::F32Literal(_) | ExprKind::F64Literal(_) | ExprKind::Ident(_)
            | ExprKind::NewBuilder => {
                assert(views_now(res@) =~= Seq::empty());
                assert(expr_views(res@.map_values(f)) =~= Seq::empty());
            },
        }
        res
    }

    /// The children of this node, in canonical order, to be changed in
    /// place.
    pub fn children_mut(&mut self) -> (res: std::vec::IntoIter<&mut Expr<T>>)
        ensures
            // what the iterator hands out points to the children as they
            // were, and when it is given up, to the children as they will be
            views_now(res.remaining()) == old(self)@.children,
            expr_views(res.remaining().map_values(|r: &mut Expr<T>| *final(r))) == final(self)@.children,
            final(self)@.ty == old(self)@.ty,
            final(self)@.head == old(self)@.head,
    {
        self.child_refs_mut().into_iter()
    }
}

/// The two enumerations of the children of a node agree: what `children`
/// gives for a node and what `children_mut` gives for it are lists of the
/// same length that hold, position by position, the same expressions.
pub proof fn lemma_children_agree<T: TypeBounds>(
    e: Expr<T>,
    shared: Seq<&Expr<T>>,
    exclusive: Seq<&mut Expr<T>>,
)
    requires
        views_of(shared) == e@.children,
        views_now(exclusive) == e@.children,
    ensures
        shared.len() == exclusive.len(),
        forall|i: int| 0 <= i < shared.len() ==> expr_view(*#[trigger] shared[i]) == expr_view(*exclusive[i]),
{
    assert(views_of(shared).len() == shared.len());
    assert(views_now(exclusive).len() == exclusive.len());
    assert forall|i: int| 0 <= i < shared.len() implies expr_view(*#[trigger] shared[i]) == expr_view(
        *exclusive[i],
    ) by {
        assert(views_of(shared)[i] == expr_view(*shared[i]));
        assert(views_now(exclusive)[i] == expr_view(*exclusive[i]));
    }
}

} // verus!
