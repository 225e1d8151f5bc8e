//! Rewriting of a tree in place.

use vstd::prelude::*;
use crate::ast::{expr_view, expr_views, Expr, TypeBounds};
use crate::children_mut::views_now;
use crate::model::{lemma_child_smaller, ExprView};

verus! {

/// What a rewriter may do at a node: `rule(before, answer, left)` says that
/// the rewriter, asked about the node `before`, may give `answer` and leave
/// the node as `left`.
pub type Rule<A> = spec_fn(ExprView<A>, Option<ExprView<A>>, ExprView<A>) -> bool;

/// A measure by which rewriting comes to an end.
pub type Rank<A> = spec_fn(ExprView<A>) -> nat;

/// The model of the answer of a rewriter.
pub open spec fn answer_view<T: TypeBounds>(answer: Option<Expr<T>>) -> Option<ExprView<T::V>> {
    match answer {
        Some(e) => Some(expr_view(e)),
        None => None,
    }
}

/// The measure that counts the nodes of a tree.
pub open spec fn node_count<A>() -> Rank<A> {
    |e: ExprView<A>| e.size()
}

/// Whether each of `trees` ranks below `bound`.
pub open spec fn below<A>(rank: Rank<A>, trees: Seq<ExprView<A>>, bound: nat) -> bool {
    forall|i: int| 0 <= i < trees.len() ==> rank(#[trigger] trees[i]) < bound
}

/// Whether the rewriter comes to an end by the measure `rank`, as far as
/// its answers and the nodes it is asked about say: a replacement ranks
/// below the node it replaces, and where the rewriter declines, the children
/// of the node it was asked about rank below that node.
pub open spec fn ends_by<T: TypeBounds, F: FnMut(&mut Expr<T>) -> Option<Expr<T>>>(
    func: F,
    rank: Rank<T::V>,
) -> bool {
    forall|m: &mut Expr<T>, r: Option<Expr<T>>| #[trigger]
        call_ensures(func, (m,), r) ==> (match r {
            Some(e) => rank(expr_view(e)) < rank(expr_view(*m)),
            None => below(rank, expr_view(*m).children, rank(expr_view(*m))),
        })
}

/// Whether rewriting the tree `before` by `rule` can give the tree `after`:
/// the rewriter is asked about the root, and the rewriting goes on from its
/// answer.
pub open spec fn rewrites<A>(rule: Rule<A>, rank: Rank<A>, before: ExprView<A>, after: ExprView<A>) -> bool
    decreases rank(before), 1nat,
{
    exists|answer: Option<ExprView<A>>, left: ExprView<A>| #[trigger]
        rule(before, answer, left) && goes_on(rule, rank, before, answer, left, after)
}

/// Whether rewriting can give `after` once the rewriter, asked about the
/// root of `before`, has given `answer` and left the node as `left`. After a
/// replacement, the replacement is rewritten. After the rewriter has
/// declined, the node keeps its annotation and its head as the rewriter
/// left them, and each child is rewritten by itself.
pub open spec fn goes_on<A>(
    rule: Rule<A>,
    rank: Rank<A>,
    before: ExprView<A>,
    answer: Option<ExprView<A>>,
    left: ExprView<A>,
    after: ExprView<A>,
) -> bool
    decreases rank(before), 0nat,
{
    match answer {
        Some(replacement) => rank(replacement) < rank(before) && rewrites(rule, rank, replacement, after),
        None => {
            &&& after.ty == left.ty
            &&& after.head == left.head
            &&& after.children.len() == left.children.len()
            &&& forall|i: int|
                0 <= i < left.children.len() ==> rank(#[trigger] left.children[i]) < rank(before) && rewrites(
                    rule,
                    rank,
                    left.children[i],
                    after.children[i],
                )
        },
    }
}

/// Whether the rewriter never gives a replacement and never changes a
/// node.
pub open spec fn idle<A>(rule: Rule<A>) -> bool {
    forall|before: ExprView<A>, answer: Option<ExprView<A>>, left: ExprView<A>| #[trigger]
        rule(before, answer, left) ==> answer is None && left == before
}

/// Rewriting with a rewriter that never gives a replacement and never
/// changes a node gives the tree that it began with.
pub proof fn lemma_idle_rewriting<A>(rule: Rule<A>, rank: Rank<A>, before: ExprView<A>, after: ExprView<A>)
    requires
        idle(rule),
        rewrites(rule, rank, before, after),
    ensures
        after == before,
    decreases rank(before),
{
    let (answer, left) = choose|answer: Option<ExprView<A>>, left: ExprView<A>| #[trigger]
        rule(before, answer, left) && goes_on(rule, rank, before, answer, left, after);
    assert(answer is None && left == before);
    assert forall|i: int| 0 <= i < before.children.len() implies after.children[i] == before.children[i] by {
        assert(rank(before.children[i]) < rank(before));
        lemma_idle_rewriting(rule, rank, before.children[i], after.children[i]);
    }
    assert(after.children =~= before.children);
}

/// Whether the rewriter leaves every node as it was and decides by the
/// annotation and the head of a node alone whether it gives a replacement.
pub open spec fn decides_by_head<A>(rule: Rule<A>) -> bool {
    &&& forall|before: ExprView<A>, answer: Option<ExprView<A>>, left: ExprView<A>| #[trigger]
        rule(before, answer, left) ==> left == before
    &&& forall|
        a: ExprView<A>,
        answer_a: Option<ExprView<A>>,
        left_a: ExprView<A>,
        b: ExprView<A>,
        answer_b: Option<ExprView<A>>,
        left_b: ExprView<A>,
    | #[trigger]
        rule(a, answer_a, left_a) && #[trigger] rule(b, answer_b, left_b) && a.ty == b.ty && a.head == b.head
            ==> (answer_a is None <==> answer_b is None)
}

/// Whether the rewriter declines on every node of the tree.
pub open spec fn settled<A>(rule: Rule<A>, tree: ExprView<A>) -> bool
    decreases tree,
{
    &&& forall|answer: Option<ExprView<A>>, left: ExprView<A>| #[trigger] rule(tree, answer, left) ==> answer is None
    &&& forall|i: int| 0 <= i < tree.children.len() ==> settled(rule, #[trigger] tree.children[i])
}

/// Rewriting with a rewriter that leaves nodes as they were and decides by
/// annotation and head gives a tree on every node of which the rewriter
/// declines.
pub proof fn lemma_rewriting_settles<A>(rule: Rule<A>, rank: Rank<A>, before: ExprView<A>, after: ExprView<A>)
    requires
        decides_by_head(rule),
        rewrites(rule, rank, before, after),
    ensures
        settled(rule, after),
    decreases rank(before),
{
    let (answer, left) = choose|answer: Option<ExprView<A>>, left: ExprView<A>| #[trigger]
        rule(before, answer, left) && goes_on(rule, rank, before, answer, left, after);
    match answer {
        Some(replacement) => {
            lemma_rewriting_settles(rule, rank, replacement, after);
        },
        None => {
            assert(left == before);
            assert forall|i: int| 0 <= i < after.children.len() implies settled(
                rule,
                #[trigger] after.children[i],
            ) by {
                assert(rank(left.children[i]) < rank(before));
                lemma_rewriting_settles(rule, rank, left.children[i], after.children[i]);
            }
            assert forall|answer2: Option<ExprView<A>>, left2: ExprView<A>| #[trigger]
                rule(after, answer2, left2) implies answer2 is None by {
                assert(rule(before, answer, left));
            }
        },
    }
}

impl<T: TypeBounds> Expr<T> {
    /// Takes the answer of a rewriter for this node: a replacement is put in
    /// the place of the node, and the result says whether there was one.
    pub fn splice(&mut self, answer: Option<Expr<T>>) -> (replaced: bool)
        ensures
            replaced == (answer is Some),
            *final(self) == (match answer {
                Some(e) => e,
                None => *old(self),
            }),
    {
        match answer {
            Some(e) => {
                *self = e;
                true
            },
            None => false,
        }
    }

    /// Rewrites the tree in place with `func`, for a rewriter that comes to
    /// an end by the measure `rank`. At each node, `func` is asked for a
    /// replacement; as long as it gives one, the replacement takes the place
    /// of the node and `func` is asked again. Once `func` declines, the
    /// children of the node, as `func` has left it, are rewritten in the
    /// same way, in order. The node itself is not offered to `func` again.
    ///
    /// That the rewriter comes to an end by `rank` means that a replacement
    /// ranks below the node it replaces, and that the children of a node on
    /// which the rewriter has declined, as it left them, rank below the node
    /// that it was asked about.
    ///
    /// The result is a tree that rewriting can give, where the rule of the
    /// rewriter is what a call of `func` may answer and leave behind.
    pub fn transform_ranked<F>(&mut self, func: &mut F, Ghost(rank): Ghost<Rank<T::V>>) where
        F: FnMut(&mut Expr<T>) -> Option<Expr<T>>,

        requires
            forall|m: &mut Expr<T>| #[trigger] call_requires(*old(func), (m,)),
            forall|m: &mut Expr<T>, r: Option<Expr<T>>| #[trigger]
                call_ensures(*old(func), (m,), r) ==> (match r {
                    Some(e) => rank(expr_view(e)) < rank(expr_view(*m)),
                    None => below(rank, expr_view(*final(m)).children, rank(expr_view(*m))),
                }),
        ensures
            *final(func) == *old(func),
            rewrites(
                |before: ExprView<T::V>, answer: Option<ExprView<T::V>>, left: ExprView<T::V>|
                    exists|m: &mut Expr<T>, r: Option<Expr<T>>| #[trigger]
                        call_ensures(*old(func), (m,), r) && expr_view(*m) == before && answer_view(r)
                            == answer && expr_view(*final(m)) == left,
                rank,
                old(self)@,
                final(self)@,
            ),
        decreases rank(old(self)@),
    {
        let ghost rule = |before: ExprView<T::V>, answer: Option<ExprView<T::V>>, left: ExprView<T::V>|
            exists|m: &mut Expr<T>, r: Option<Expr<T>>| #[trigger]
                call_ensures(*old(func), (m,), r) && expr_view(*m) == before && answer_view(r) == answer
                    && expr_view(*final(m)) == left;
        let ghost before = self@;
        let answer = func(self);
        let ghost given = answer_view(answer);
        let ghost left = self@;
        assert(rule(before, given, left));
        if self.splice(answer) {
            self.transform_ranked(func, Ghost(rank));
            assert(goes_on(rule, rank, before, given, left, self@));
            return;
        }
        assert(below(rank, left.children, rank(before)));
        let mut refs = self.child_refs_mut();
        let ghost all = refs@;
        let mut rest: Vec<&mut Expr<T>> = Vec::new();
        while refs.len() > 0
            invariant
                refs@.len() + rest@.len() == all.len(),
                refs@ == all.subrange(0, refs@.len() as int),
                forall|i: int| 0 <= i < rest@.len() ==> *rest@[i] == *all[all.len() - 1 - i],
                forall|i: int| 0 <= i < rest@.len() ==> *final(rest@[i]) == *final(all[all.len() - 1 - i]),
            decreases refs@.len(),
        {
            let c = refs.pop().unwrap();
            rest.push(c);
        }
        while rest.len() > 0
            invariant
                rest@.len() <= all.len(),
                forall|i: int| 0 <= i < rest@.len() ==> *rest@[i] == *all[all.len() - 1 - i],
                forall|i: int| 0 <= i < rest@.len() ==> *final(rest@[i]) == *final(all[all.len() - 1 - i]),
                views_now(all) == left.children,
                below(rank, left.children, rank(old(self)@)),
                *func == *old(func),
                rule == (|before: ExprView<T::V>, answer: Option<ExprView<T::V>>, left: ExprView<T::V>|
                    exists|m: &mut Expr<T>, r: Option<Expr<T>>| #[trigger]
                        call_ensures(*old(func), (m,), r) && expr_view(*m) == before && answer_view(r)
                            == answer && expr_view(*final(m)) == left),
                forall|m: &mut Expr<T>| #[trigger] call_requires(*func, (m,)),
                forall|m: &mut Expr<T>, r: Option<Expr<T>>| #[trigger]
                    call_ensures(*func, (m,), r) ==> (match r {
                        Some(e) => rank(expr_view(e)) < rank(expr_view(*m)),
                        None => below(rank, expr_view(*final(m)).children, rank(expr_view(*m))),
                    }),
                forall|i: int| 0 <= i < all.len() - rest@.len() ==> rewrites(rule, rank, left.children[i], expr_view(*final(#[trigger] all[i]))),
            decreases rest@.len(),
        {
            let ghost k = all.len() - rest@.len();
            let c = rest.pop().unwrap();
            proof {
                assert(*c == *all[k]);
                assert(*final(c) == *final(all[k]));
                assert(views_now(all)[k] == left.children[k]);
                assert(rank(left.children[k]) < rank(old(self)@));
            }
            c.transform_ranked(func, Ghost(rank));
        }
        proof {
            let f = |r: &mut Expr<T>| *final(r);
            let after = self@;
            assert(after.children == expr_views(all.map_values(f)));
            assert forall|i: int| 0 <= i < left.children.len() implies rank(#[trigger] left.children[i]) < rank(
                before,
            ) && rewrites(rule, rank, left.children[i], after.children[i]) by {
                assert(after.children[i] == expr_view(*final(all[i])));
            }
            assert(goes_on(rule, rank, before, given, left, after));
        }
    }

    /// Rewrites the tree in place with `func`. At each node, `func` is asked
    /// for a replacement; as long as it gives one, the replacement takes the
    /// place of the node and `func` is asked again. Once `func` declines,
    /// the children of the node, as `func` has left it, are rewritten in the
    /// same way, in order. The node itself is not offered to `func` again.
    ///
    /// The rewriter has to come to an end: there has to be a measure by
    /// which every replacement ranks below the node it replaces, and the
    /// children of a node on which the rewriter declines rank below that
    /// node. A node on which the rewriter declines has to be left as it
    /// was; where every replacement has fewer nodes than the node it
    /// replaces, it may also be changed, as long as it does not get more
    /// nodes. A rewriter that changes such nodes in another way is one for
    /// [`Expr::transform_ranked`].
    ///
    /// The result is a tree that rewriting can give, where the rule of the
    /// rewriter is what a call of `func` may answer and leave behind. If
    /// `func` never gives a replacement and never changes a node, the tree
    /// is what it was.
    pub fn transform<F>(&mut self, func: &mut F) where F: FnMut(&mut Expr<T>) -> Option<Expr<T>>
        requires
            forall|m: &mut Expr<T>| #[trigger] call_requires(*old(func), (m,)),
            exists|rank: Rank<T::V>| #[trigger] ends_by::<T, F>(*old(func), rank),
            forall|m: &mut Expr<T>, r: Option<Expr<T>>| #[trigger]
                call_ensures(*old(func), (m,), r) && r is None ==> expr_view(*final(m)) == expr_view(*m) || (
                ends_by::<T, F>(*old(func), node_count()) && expr_view(*final(m)).size() <= expr_view(
                    *m,
                ).size()),
        ensures
            *final(func) == *old(func),
            exists|rank: Rank<T::V>| #[trigger]
                ends_by::<T, F>(*old(func), rank) && rewrites(
                    |before: ExprView<T::V>, answer: Option<ExprView<T::V>>, left: ExprView<T::V>|
                        exists|m: &mut Expr<T>, r: Option<Expr<T>>| #[trigger]
                            call_ensures(*old(func), (m,), r) && expr_view(*m) == before && answer_view(r)
                                == answer && expr_view(*final(m)) == left,
                    rank,
                    old(self)@,
                    final(self)@,
                ),
            (forall|m: &mut Expr<T>, r: Option<Expr<T>>| #[trigger]
                call_ensures(*old(func), (m,), r) ==> r is None && expr_view(*final(m)) == expr_view(*m))
                ==> final(self)@ == old(self)@,
    {
        let ghost rule = |before: ExprView<T::V>, answer: Option<ExprView<T::V>>, left: ExprView<T::V>|
            exists|m: &mut Expr<T>, r: Option<Expr<T>>| #[trigger]
                call_ensures(*old(func), (m,), r) && expr_view(*m) == before && answer_view(r) == answer
                    && expr_view(*final(m)) == left;
        let ghost rank: Rank<T::V> = if ends_by::<T, F>(*old(func), node_count()) {
            node_count()
        } else {
            choose|rank: Rank<T::V>| #[trigger] ends_by::<T, F>(*old(func), rank)
        };
        assert(ends_by::<T, F>(*old(func), rank));
        assert forall|m: &mut Expr<T>, r: Option<Expr<T>>| #[trigger]
            call_ensures(*old(func), (m,), r) implies (match r {
            Some(e) => rank(expr_view(e)) < rank(expr_view(*m)),
            None => below(rank, expr_view(*final(m)).children, rank(expr_view(*m))),
        }) by {
            if r is None && expr_view(*final(m)) != expr_view(*m) {
                let left = expr_view(*final(m));
                assert forall|i: int| 0 <= i < left.children.len() implies rank(#[trigger] left.children[i])
                    < rank(expr_view(*m)) by {
                    lemma_child_smaller(left, i);
                }
            }
        }
        self.transform_ranked(func, Ghost(rank));
        assert((forall|m: &mut Expr<T>, r: Option<Expr<T>>| #[trigger]
            call_ensures(*old(func), (m,), r) ==> r is None && expr_view(*final(m)) == expr_view(*m))
            ==> self@ == old(self)@) by {
            if idle(rule) {
                lemma_idle_rewriting(rule, rank, old(self)@, self@);
            }
        }
    }
}

} // verus!
