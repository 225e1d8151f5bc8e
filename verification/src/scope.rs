//! Free occurrences of a symbol, and what substitution does to them.

use vstd::prelude::*;
use crate::model::{ExprView, Head, SymbolView};

verus! {

impl<A> ExprView<A> {
    /// The number of free occurrences of the symbol `s` in the tree: the
    /// nodes `Ident(s)` that are not below a node that gives `s` a new
    /// meaning there.
    pub open spec fn free_count(self, s: SymbolView) -> nat
        decreases self,
    {
        if self.head == Head::<A>::Ident(s) {
            1
        } else {
            Self::free_counts(self.head, self.children, self.children.len(), s)
        }
    }

    /// The number of free occurrences of `s` in the first `n` of the
    /// children `cs` of a node with the head `head`.
    pub open spec fn free_counts(head: Head<A>, cs: Seq<ExprView<A>>, n: nat, s: SymbolView) -> nat
        decreases cs, n,
    {
        if n == 0 || n > cs.len() {
            0
        } else {
            Self::free_counts(head, cs, (n - 1) as nat, s) + (if head.rebinds(s, n - 1) {
                0
            } else {
                cs[n - 1].free_count(s)
            })
        }
    }

    /// Whether the symbol `s` occurs free in the tree.
    pub open spec fn occurs_free(self, s: SymbolView) -> bool {
        self.free_count(s) > 0
    }
}

/// Substitution leaves alone what lies below a new meaning of the symbol:
/// the body of a `Let` of `s`, and the body of a `Lambda` with a parameter
/// `s`, are after the substitution what they were before.
pub proof fn lemma_substitute_keeps_shadowed<A>(e: ExprView<A>, s: SymbolView, r: ExprView<A>, i: int)
    requires
        0 <= i < e.children.len(),
        e.head.rebinds(s, i),
    ensures
        e.substitute(s, r).ty == e.ty,
        e.substitute(s, r).head == e.head,
        e.substitute(s, r).children.len() == e.children.len(),
        e.substitute(s, r).children[i] == e.children[i],
{
}

/// Substitution for a symbol that does not occur free changes nothing.
pub proof fn lemma_substitute_without_occurrence<A>(e: ExprView<A>, s: SymbolView, r: ExprView<A>)
    requires
        !e.occurs_free(s),
    ensures
        e.substitute(s, r) == e,
    decreases e,
{
    let after = e.substitute(s, r);
    assert forall|i: int| 0 <= i < e.children.len() implies after.children[i] == e.children[i] by {
        if !e.head.rebinds(s, i) {
            lemma_free_counts_bound(e.head, e.children, e.children.len(), s, i);
            lemma_substitute_without_occurrence(e.children[i], s, r);
        }
    }
    assert(after.children =~= e.children);
}

/// A child in which the symbol keeps its meaning has no more free
/// occurrences than the children together.
pub proof fn lemma_free_counts_bound<A>(head: Head<A>, cs: Seq<ExprView<A>>, n: nat, s: SymbolView, i: int)
    requires
        0 <= i < n <= cs.len(),
        !head.rebinds(s, i),
    ensures
        cs[i].free_count(s) <= ExprView::free_counts(head, cs, n, s),
    decreases n,
{
    if i < n - 1 {
        lemma_free_counts_bound(head, cs, (n - 1) as nat, s, i);
    }
}

/// After a substitution of `r` for `s`, every free occurrence of `s` is one
/// that a copy of `r` brought: there are as many as `r` has, times the
/// number of places where `s` was free before. If `s` is not free in `r`,
/// none is left.
pub proof fn lemma_substitute_free_count<A>(e: ExprView<A>, s: SymbolView, r: ExprView<A>)
    ensures
        e.substitute(s, r).free_count(s) == e.free_count(s) * r.free_count(s),
        !r.occurs_free(s) ==> !e.substitute(s, r).occurs_free(s),
    decreases e, 1nat,
{
    if e.head == Head::<A>::Ident(s) {
        assert(1 * r.free_count(s) == r.free_count(s)) by (nonlinear_arith);
    } else {
        lemma_substitute_free_counts(e, s, r, e.children.len());
    }
    if !r.occurs_free(s) {
        assert(e.free_count(s) * 0 == 0) by (nonlinear_arith);
    }
}

/// The same for the first `n` children of a node that is not `Ident(s)`.
pub proof fn lemma_substitute_free_counts<A>(e: ExprView<A>, s: SymbolView, r: ExprView<A>, n: nat)
    requires
        e.head != Head::<A>::Ident(s),
        n <= e.children.len(),
    ensures
        ExprView::free_counts(e.head, e.substitute(s, r).children, n, s) == ExprView::free_counts(
            e.head,
            e.children,
            n,
            s,
        ) * r.free_count(s),
    decreases e, 0nat, n,
{
    let k = r.free_count(s);
    if n == 0 {
        assert(0 * k == 0) by (nonlinear_arith);
    } else {
        lemma_substitute_free_counts(e, s, r, (n - 1) as nat);
        let before = ExprView::free_counts(e.head, e.children, (n - 1) as nat, s);
        if e.head.rebinds(s, n - 1) {
            assert((before + 0) * k == before * k) by (nonlinear_arith);
        } else {
            let c = e.children[n - 1];
            lemma_substitute_free_count(c, s, r);
            assert((before + c.free_count(s)) * k == before * k + c.free_count(s) * k) by (nonlinear_arith);
        }
    }
}

} // verus!
