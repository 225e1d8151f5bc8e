//! The walk of a tree in pre-order.

use vstd::prelude::*;
use crate::ast::{expr_view, Expr, TypeBounds};
use crate::children::views_of;
use crate::model::{lemma_child_smaller, ExprView};

verus! {

/// Whether `func` has returned from a call on an expression whose model is
/// `node`.
pub open spec fn visited<T: TypeBounds, F: FnMut(&Expr<T>) -> ()>(func: F, node: ExprView<T::V>) -> bool {
    exists|e: &Expr<T>| expr_view(*e) == node && #[trigger] call_ensures(func, (e,), ())
}

/// Whether `func` may be called on every expression whose model is one of
/// `nodes`.
pub open spec fn accepts<T: TypeBounds, F: FnMut(&Expr<T>) -> ()>(func: F, nodes: Seq<ExprView<T::V>>) -> bool {
    forall|e: &Expr<T>| nodes.contains(expr_view(*e)) ==> #[trigger] call_requires(func, (e,))
}

/// Appends references to the nodes of the tree `e` in pre-order: to `e`, then
/// to the nodes of each child in turn.
fn push_preorder<'a, T: TypeBounds>(e: &'a Expr<T>, out: &mut Vec<&'a Expr<T>>)
    ensures
        views_of(final(out)@) == views_of(old(out)@) + e@.preorder(),
    decreases e@.size(),
{
    let ghost before = views_of(out@);
    let ghost prev = out@;
    out.push(e);
    assert(views_of(out@) =~= before + seq![e@] + ExprView::preorders(e@.children, 0)) by {
        assert(views_of(out@) =~= views_of(prev).push(e@));
    }
    let children = e.child_refs();
    let mut i: usize = 0;
    while i < children.len()
        invariant
            i <= children.len(),
            views_of(children@) == e@.children,
            views_of(out@) == before + seq![e@] + ExprView::preorders(e@.children, i as nat),
        decreases children.len() - i,
    {
        let ghost child = e@.children[i as int];
        proof {
            assert(views_of(children@)[i as int] == child);
            lemma_child_smaller(e@, i as int);
        }
        push_preorder(children[i], out);
        assert(views_of(out@) =~= before + seq![e@] + ExprView::preorders(e@.children, (i + 1) as nat)) by {
            assert(ExprView::preorders(e@.children, (i + 1) as nat) == ExprView::preorders(
                e@.children,
                i as nat,
            ) + child.preorder());
        }
        i += 1;
    }
    assert(before + seq![e@] + ExprView::preorders(e@.children, e@.children.len()) =~= before + e@.preorder());
}

impl<T: TypeBounds> Expr<T> {
    /// The nodes of the tree as a list of references, in pre-order: this
    /// node, then the nodes of each child in turn.
    pub fn preorder_refs(&self) -> (res: Vec<&Expr<T>>)
        ensures
            views_of(res@) == self@.preorder(),
    {
        let mut res: Vec<&Expr<T>> = Vec::new();
        assert(views_of(res@) =~= Seq::empty());
        push_preorder(self, &mut res);
        assert(Seq::<ExprView<T::V>>::empty() + self@.preorder() =~= self@.preorder());
        res
    }

    /// Calls `func` on every node of the tree, in pre-order: on this node
    /// and then on the nodes of each child in turn, as
    /// [`Expr::preorder_refs`] lists them. The walk cannot be cut short.
    ///
    /// To the verifier a closure is a value that a call does not change, so
    /// what `func` does to its captured state is not part of this contract.
    /// [`Expr::fold`] is the walk with a state that the contract follows.
    pub fn traverse<F>(&self, func: &mut F) where F: FnMut(&Expr<T>) -> ()
        requires
            accepts(*old(func), self@.preorder()),
        ensures
            *final(func) == *old(func),
            forall|i: int| 0 <= i < self@.preorder().len() ==> visited(*old(func), #[trigger] self@.preorder()[i]),
    {
        let nodes = self.preorder_refs();
        let mut i: usize = 0;
        while i < nodes.len()
            invariant
                i <= nodes.len(),
                views_of(nodes@) == self@.preorder(),
                *func == *old(func),
                accepts(*func, self@.preorder()),
                forall|j: int| 0 <= j < i ==> visited(*func, #[trigger] self@.preorder()[j]),
            decreases nodes.len() - i,
        {
            assert(views_of(nodes@)[i as int] == self@.preorder()[i as int]);
            func(nodes[i]);
            i += 1;
        }
        assert(views_of(nodes@).len() == nodes@.len());
    }
}

/// Whether a call of `func` on the state `before` and an expression whose
/// model is `node` can give the state `after`.
pub open spec fn steps<T: TypeBounds, S, F: Fn(S, &Expr<T>) -> S>(
    func: F,
    node: ExprView<T::V>,
    before: S,
    after: S,
) -> bool {
    exists|e: &Expr<T>| expr_view(*e) == node && #[trigger] call_ensures(func, (before, e), after)
}

/// Whether `states` are the states of a run of `func` over `nodes`: the run
/// starts in the first state, and one call of `func` for each node, in
/// order, leads from each state to the next.
pub open spec fn run_of<T: TypeBounds, S, F: Fn(S, &Expr<T>) -> S>(
    func: F,
    nodes: Seq<ExprView<T::V>>,
    states: Seq<S>,
) -> bool {
    &&& states.len() == nodes.len() + 1
    &&& forall|i: int| 0 <= i < nodes.len() ==> steps(func, #[trigger] nodes[i], states[i], states[i + 1])
}

/// Whether calls of `func` for each of `nodes`, in order and once each, can
/// lead from the state `start` to the state `end`.
pub open spec fn folds<T: TypeBounds, S, F: Fn(S, &Expr<T>) -> S>(
    func: F,
    nodes: Seq<ExprView<T::V>>,
    start: S,
    end: S,
) -> bool {
    exists|states: Seq<S>| #[trigger] run_of(func, nodes, states) && states[0] == start && states[nodes.len() as int] == end
}

/// Whether `func` may be called, in any state, on every expression whose
/// model is one of `nodes`.
pub open spec fn accepts_in_any_state<T: TypeBounds, S, F: Fn(S, &Expr<T>) -> S>(
    func: F,
    nodes: Seq<ExprView<T::V>>,
) -> bool {
    forall|s: S, e: &Expr<T>| nodes.contains(expr_view(*e)) ==> #[trigger] call_requires(func, (s, e))
}

/// A run over `a` followed by a run over `b` is a run over `a + b`.
pub proof fn lemma_folds_append<T: TypeBounds, S, F: Fn(S, &Expr<T>) -> S>(
    func: F,
    a: Seq<ExprView<T::V>>,
    b: Seq<ExprView<T::V>>,
    start: S,
    mid: S,
    end: S,
)
    requires
        folds(func, a, start, mid),
        folds(func, b, mid, end),
    ensures
        folds(func, a + b, start, end),
{
    let sa = choose|states: Seq<S>| #[trigger] run_of(func, a, states) && states[0] == start && states[a.len() as int] == mid;
    let sb = choose|states: Seq<S>| #[trigger] run_of(func, b, states) && states[0] == mid && states[b.len() as int] == end;
    // the states of the first run, then those of the second but for its
    // first, which is the last of the first run
    let all = sa + sb.subrange(1, sb.len() as int);
    assert forall|i: int| 0 <= i < (a + b).len() implies steps(func, #[trigger] (a + b)[i], all[i], all[i + 1]) by {
        if i < a.len() {
            assert(steps(func, a[i], sa[i], sa[i + 1]));
        } else {
            assert(steps(func, b[i - a.len()], sb[i - a.len()], sb[i - a.len() + 1]));
        }
    }
    assert(run_of(func, a + b, all));
}

impl<T: TypeBounds> Expr<T> {
    /// Walks the tree in pre-order with a state: calls `func` on the state
    /// and a node, for each node of the tree as [`Expr::preorder_refs`]
    /// lists them, and returns the last state. There is one call for each
    /// node of the tree, and the calls come in pre-order.
    pub fn fold<S, F>(&self, init: S, func: &F) -> (res: S) where F: Fn(S, &Expr<T>) -> S
        requires
            accepts_in_any_state(*func, self@.preorder()),
        ensures
            folds(*func, self@.preorder(), init, res),
    {
        let ghost start = init;
        let ghost all = self@.preorder();
        let nodes = self.preorder_refs();
        let mut state = init;
        let mut i: usize = 0;
        assert(run_of(*func, all.subrange(0, 0), seq![start]));
        while i < nodes.len()
            invariant
                i <= nodes.len(),
                all == self@.preorder(),
                views_of(nodes@) == all,
                accepts_in_any_state(*func, all),
                folds(*func, all.subrange(0, i as int), start, state),
            decreases nodes.len() - i,
        {
            let ghost mid = state;
            assert(views_of(nodes@)[i as int] == all[i as int]);
            state = func(state, nodes[i]);
            proof {
                assert(run_of(*func, seq![all[i as int]], seq![mid, state]));
                lemma_folds_append(*func, all.subrange(0, i as int), seq![all[i as int]], start, mid, state);
                assert(all.subrange(0, i as int) + seq![all[i as int]] =~= all.subrange(0, i + 1));
            }
            i += 1;
        }
        assert(views_of(nodes@).len() == nodes@.len());
        assert(all.subrange(0, all.len() as int) =~= all);
        state
    }
}

} // verus!
