//! Substitution of an expression for the free occurrences of a symbol.

use vstd::prelude::*;
use crate::ast::{expr_view, expr_views, param_views, Expr, ExprKind, Parameter, Symbol, TypeBounds};
use crate::children_mut::views_now;
use crate::model::{lemma_child_smaller, ExprView, Head, ParameterView, SymbolView};

verus! {

impl<A> Head<A> {
    /// Whether one of `params` has the name `s`.
    pub open spec fn names(params: Seq<ParameterView<A>>, s: SymbolView) -> bool {
        exists|k: int| 0 <= k < params.len() && (#[trigger] params[k]).name == s
    }

    /// Whether a node with this head gives the symbol `s` a new meaning in
    /// its child at position `i`: a `Let` of `s` in its body, a `Lambda`
    /// with a parameter `s` in its body.
    pub open spec fn rebinds(self, s: SymbolView, i: int) -> bool {
        match self {
            Head::Let(name) => i == 1 && name == s,
            Head::Lambda(params) => i == 0 && Self::names(params, s),
            _ => false,
        }
    }
}

impl<A> ExprView<A> {
    /// The tree with `r` in place of each free occurrence of the symbol `s`.
    /// A node `Ident(s)` becomes `r`, annotation included. Below a node that
    /// gives `s` a new meaning nothing changes.
    pub open spec fn substitute(self, s: SymbolView, r: ExprView<A>) -> ExprView<A>
        decreases self,
    {
        if self.head == Head::<A>::Ident(s) {
            r
        } else {
            ExprView {
                ty: self.ty,
                head: self.head,
                children: Seq::new(
                    self.children.len(),
                    |i: int|
                        if 0 <= i < self.children.len() && !self.head.rebinds(s, i) {
                            self.children[i].substitute(s, r)
                        } else {
                            self.children[i]
                        },
                ),
            }
        }
    }
}

/// Whether one of `params` has the name `symbol`.
fn binds<T: TypeBounds>(params: &Vec<Parameter<T>>, symbol: &Symbol) -> (res: bool)
    ensures
        res == Head::names(param_views(params@), symbol@),
{
    let mut i: usize = 0;
    while i < params.len()
        invariant
            i <= params.len(),
            forall|k: int| 0 <= k < i ==> (#[trigger] param_views(params@)[k]).name != symbol@,
        decreases params.len() - i,
    {
        if params[i].name == *symbol {
            assert(param_views(params@)[i as int].name == symbol@);
            return true;
        }
        i += 1;
    }
    false
}

impl<T: TypeBounds> Expr<T> {
    /// Puts a copy of `replacement` in place of each free occurrence of
    /// `symbol` in this expression. Where a `Let` or a `Lambda` gives the
    /// symbol a new meaning, its body is left as it is. The copies are put in
    /// as they are: a symbol that is free in `replacement` may come under a
    /// binder of the same name.
    pub fn substitute(&mut self, symbol: &Symbol, replacement: &Expr<T>)
        ensures
            final(self)@ == old(self)@.substitute(symbol@, replacement@),
        decreases old(self)@.size(),
    {
        let self_matches = match &self.kind {
            ExprKind::Ident(sym) => *sym == *symbol,
            _ => false,
        };
        if self_matches {
            *self = replacement.clone();
            return;
        }
        let ghost before = self@;
        match &mut self.kind {
            ExprKind::Let { name, value, body } => {
                proof {
                    lemma_child_smaller(before, 0);
                    lemma_child_smaller(before, 1);
                }
                value.substitute(symbol, replacement);
                if *name != *symbol {
                    body.substitute(symbol, replacement);
                }
                assert(self@.children =~= before.substitute(symbol@, replacement@).children);
            },
            ExprKind::Lambda { params, body } => {
                proof {
                    lemma_child_smaller(before, 0);
                }
                let bound = binds(params, symbol);
                if !bound {
                    body.substitute(symbol, replacement);
                }
                assert(self@.children =~= before.substitute(symbol@, replacement@).children);
            },
            _ => {
                let mut refs = self.child_refs_mut();
                let ghost all = refs@;
                while refs.len() > 0
                    invariant
                        refs@.len() <= all.len(),
                        refs@ == all.subrange(0, refs@.len() as int),
                        views_now(all) == before.children,
                        before == old(self)@,
                        forall|i: int| refs@.len() <= i < all.len() ==> expr_view(*final(#[trigger] all[i])) == before.children[i].substitute(symbol@, replacement@),
                    decreases refs@.len(),
                {
                    let ghost k = refs@.len() - 1;
                    let c = refs.pop().unwrap();
                    proof {
                        assert(views_now(all)[k] == before.children[k]);
                        lemma_child_smaller(before, k);
                    }
                    c.substitute(symbol, replacement);
                }
                proof {
                    let f = |r: &mut Expr<T>| *final(r);
                    assert(expr_views(all.map_values(f)) =~= before.substitute(symbol@, replacement@).children);
                }
                assert(self@.children =~= before.substitute(symbol@, replacement@).children);
            },
        }
    }
}

} // verus!
