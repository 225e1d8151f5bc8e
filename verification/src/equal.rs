//! Equality of expressions, node by node.

use vstd::prelude::*;
use vstd::std_specs::cmp::PartialEqSpecImpl;
use crate::ast::{iter_children, iter_shape, iter_shapes, kind_children, kind_head, param_views, Expr, ExprKind, Iter, Parameter, TypeBounds};
use crate::children::{kind_child_refs, push_iter, views_of};
use crate::compare::{double_bits_equal, double_equal, single_bits_equal, single_equal};
use crate::model::{lemma_child_smaller, lemma_sizes_bound, ExprView, Head};

verus! {

impl<A> Head<A> {
    /// Whether two heads are the same. Float constants are the same if they
    /// are equal as numbers.
    pub open spec fn same(self, other: Head<A>) -> bool {
        match (self, other) {
            (Head::F32Literal(l), Head::F32Literal(r)) => single_equal(l, r),
            (Head::F64Literal(l), Head::F64Literal(r)) => double_equal(l, r),
            _ => self == other,
        }
    }
}

impl<A> ExprView<A> {
    /// Whether two trees are the same, node by node. Float constants are
    /// the same if they are equal as numbers.
    pub open spec fn same(self, other: ExprView<A>) -> bool
        decreases self,
    {
        &&& self.ty == other.ty
        &&& self.head.same(other.head)
        &&& Self::same_lists(self.children, other.children)
    }

    /// Whether two lists of trees have the same length and, position by
    /// position, the same trees.
    pub open spec fn same_lists(cs1: Seq<ExprView<A>>, cs2: Seq<ExprView<A>>) -> bool
        decreases cs1,
    {
        &&& cs1.len() == cs2.len()
        &&& forall|i: int| 0 <= i < cs1.len() ==> (#[trigger] cs1[i]).same(cs2[i])
    }
}

/// Whether two annotations have the same model.
fn ty_eq<T: TypeBounds>(a: &T, b: &T) -> (res: bool)
    ensures
        res == (a@ == b@),
{
    proof {
        T::eq_decides_view(a, b);
    }
    *a == *b
}

/// Whether two parameter lists have the same models.
fn params_eq<T: TypeBounds>(left: &Vec<Parameter<T>>, right: &Vec<Parameter<T>>) -> (res: bool)
    ensures
        res == (param_views(left@) == param_views(right@)),
{
    if left.len() != right.len() {
        assert(param_views(left@).len() != param_views(right@).len());
        return false;
    }
    let mut i: usize = 0;
    while i < left.len()
        invariant
            i <= left.len(),
            left@.len() == right@.len(),
            forall|k: int| 0 <= k < i ==> left@[k]@ == right@[k]@,
        decreases left.len() - i,
    {
        if !(left[i].name == right[i].name && ty_eq(&left[i].ty, &right[i].ty)) {
            assert(param_views(left@)[i as int] != param_views(right@)[i as int]);
            return false;
        }
        i += 1;
    }
    assert(param_views(left@) =~= param_views(right@));
    true
}

/// Whether two lists of iterators carry the same optional parts, position
/// by position.
fn shapes_eq<T: TypeBounds>(a: &Vec<Iter<T>>, b: &Vec<Iter<T>>) -> (res: bool)
    ensures
        res == (iter_shapes(a@) == iter_shapes(b@)),
{
    if a.len() != b.len() {
        assert(iter_shapes(a@).len() != iter_shapes(b@).len());
        return false;
    }
    let mut i: usize = 0;
    while i < a.len()
        invariant
            i <= a.len(),
            a@.len() == b@.len(),
            forall|k: int| 0 <= k < i ==> iter_shape(a@[k]) == iter_shape(b@[k]),
        decreases a.len() - i,
    {
        let same = a[i].start.is_some() == b[i].start.is_some() && a[i].end.is_some()
            == b[i].end.is_some() && a[i].stride.is_some() == b[i].stride.is_some();
        if !same {
            assert(iter_shapes(a@)[i as int] != iter_shapes(b@)[i as int]);
            return false;
        }
        i += 1;
    }
    assert(iter_shapes(a@) =~= iter_shapes(b@));
    true
}

/// Whether the heads of two kinds of node are the same.
fn heads_eq<T: TypeBounds>(k1: &ExprKind<T>, k2: &ExprKind<T>) -> (res: bool)
    ensures
        res == kind_head(*k1).same(kind_head(*k2)),
{
    match (k1, k2) {
        (ExprKind::BoolLiteral(l), ExprKind::BoolLiteral(r)) => *l == *r,
        (ExprKind::I32Literal(l), ExprKind::I32Literal(r)) => *l == *r,
        (ExprKind::I64Literal(l), ExprKind::I64Literal(r)) => *l == *r,
        (ExprKind::F32Literal(l), ExprKind::F32Literal(r)) => single_bits_equal(*l, *r),
        (ExprKind::F64Literal(l), ExprKind::F64Literal(r)) => double_bits_equal(*l, *r),
        (ExprKind::Ident(l), ExprKind::Ident(r)) => *l == *r,
        (ExprKind::BinOp { kind: kind1, .. }, ExprKind::BinOp { kind: kind2, .. }) => *kind1
            == *kind2,
        (ExprKind::MakeStruct { .. }, ExprKind::MakeStruct { .. }) => true,
        (ExprKind::MakeVector { .. }, ExprKind::MakeVector { .. }) => true,
        (ExprKind::GetField { index: idx1, .. }, ExprKind::GetField { index: idx2, .. }) => *idx1
            == *idx2,
        (ExprKind::Length { .. }, ExprKind::Length { .. }) => true,
        (ExprKind::Let { name: sym1, .. }, ExprKind::Let { name: sym2, .. }) => *sym1 == *sym2,
        (ExprKind::If { .. }, ExprKind::If { .. }) => true,
        (ExprKind::Lambda { params: params1, .. }, ExprKind::Lambda { params: params2, .. }) => {
            params_eq(params1, params2)
        },
        (ExprKind::Apply { .. }, ExprKind::Apply { .. }) => true,
        (ExprKind::NewBuilder, ExprKind::NewBuilder) => true,
        (ExprKind::For { iters: iters1, .. }, ExprKind::For { iters: iters2, .. }) => shapes_eq(
            iters1,
            iters2,
        ),
        (ExprKind::Merge { .. }, ExprKind::Merge { .. }) => true,
        (ExprKind::Res { .. }, ExprKind::Res { .. }) => true,
        _ => false,
    }
}

/// Whether two lists of expressions are the same, position by position.
fn lists_eq<T: TypeBounds>(c1: &Vec<&Expr<T>>, c2: &Vec<&Expr<T>>, Ghost(bound): Ghost<nat>) -> (res: bool)
    requires
        forall|i: int| 0 <= i < c1@.len() ==> (#[trigger] views_of(c1@)[i]).size() < bound,
    ensures
        res == ExprView::same_lists(views_of(c1@), views_of(c2@)),
    decreases bound, 0nat,
{
    if c1.len() != c2.len() {
        return false;
    }
    let mut i: usize = 0;
    while i < c1.len()
        invariant
            i <= c1.len(),
            c1@.len() == c2@.len(),
            forall|k: int| 0 <= k < c1@.len() ==> (#[trigger] views_of(c1@)[k]).size() < bound,
            forall|k: int| 0 <= k < i ==> (#[trigger] views_of(c1@)[k]).same(views_of(c2@)[k]),
        decreases c1.len() - i,
    {
        assert(views_of(c1@)[i as int].size() < bound);
        if !expr_eq(c1[i], c2[i]) {
            assert(!views_of(c1@)[i as int].same(views_of(c2@)[i as int]));
            return false;
        }
        i += 1;
    }
    true
}

/// Whether two kinds of node, with their children, are the same.
fn kind_eq<T: TypeBounds>(k1: &ExprKind<T>, k2: &ExprKind<T>, Ghost(bound): Ghost<nat>) -> (res: bool)
    requires
        forall|i: int| 0 <= i < kind_children(*k1).len() ==> (#[trigger] kind_children(*k1)[i]).size() < bound,
    ensures
        res == (kind_head(*k1).same(kind_head(*k2)) && ExprView::same_lists(
            kind_children(*k1),
            kind_children(*k2),
        )),
    decreases bound, 1nat,
{
    if !heads_eq(k1, k2) {
        return false;
    }
    let c1 = kind_child_refs(k1);
    let c2 = kind_child_refs(k2);
    lists_eq(&c1, &c2, Ghost(bound))
}

/// Whether two expressions are the same.
fn expr_eq<T: TypeBounds>(e1: &Expr<T>, e2: &Expr<T>) -> (res: bool)
    ensures
        res == e1@.same(e2@),
    decreases e1@.size(), 2nat,
{
    proof {
        assert forall|i: int| 0 <= i < e1@.children.len() implies (#[trigger] e1@.children[i]).size() < e1@.size() by {
            lemma_child_smaller(e1@, i);
        }
    }
    ty_eq(&e1.ty, &e2.ty) && kind_eq(&e1.kind, &e2.kind, Ghost(e1@.size()))
}

impl<T: TypeBounds> PartialEq for Parameter<T> {
    fn eq(&self, other: &Self) -> (res: bool) {
        self.name == other.name && ty_eq(&self.ty, &other.ty)
    }
}

impl<T: TypeBounds> PartialEqSpecImpl for Parameter<T> {
    open spec fn obeys_eq_spec() -> bool {
        true
    }

    open spec fn eq_spec(&self, other: &Self) -> bool {
        self@ == other@
    }
}

impl<T: TypeBounds + Eq> Eq for Parameter<T> {}

impl<T: TypeBounds> PartialEq for Iter<T> {
    fn eq(&self, other: &Self) -> (res: bool) {
        let same_shape = self.start.is_some() == other.start.is_some() && self.end.is_some()
            == other.end.is_some() && self.stride.is_some() == other.stride.is_some();
        if !same_shape {
            return false;
        }
        let mut c1: Vec<&Expr<T>> = Vec::new();
        let mut c2: Vec<&Expr<T>> = Vec::new();
        assert(views_of(c1@) =~= Seq::empty());
        assert(views_of(c2@) =~= Seq::empty());
        push_iter(self, &mut c1);
        push_iter(other, &mut c2);
        let ghost cs = iter_children(*self);
        proof {
            assert(views_of(c1@) =~= cs);
            assert(views_of(c2@) =~= iter_children(*other));
            assert forall|i: int| 0 <= i < cs.len() implies (#[trigger] cs[i]).size() < 1 + ExprView::sizes(
                cs,
                cs.len(),
            ) by {
                lemma_sizes_bound(cs, cs.len(), i);
            }
        }
        lists_eq(&c1, &c2, Ghost(1 + ExprView::sizes(cs, cs.len())))
    }
}

impl<T: TypeBounds> PartialEqSpecImpl for Iter<T> {
    open spec fn obeys_eq_spec() -> bool {
        true
    }

    open spec fn eq_spec(&self, other: &Self) -> bool {
        &&& iter_shape(*self) == iter_shape(*other)
        &&& ExprView::same_lists(iter_children(*self), iter_children(*other))
    }
}

impl<T: TypeBounds> PartialEq for ExprKind<T> {
    fn eq(&self, other: &Self) -> (res: bool) {
        let ghost cs = kind_children(*self);
        proof {
            assert forall|i: int| 0 <= i < cs.len() implies (#[trigger] cs[i]).size() < 1 + ExprView::sizes(
                cs,
                cs.len(),
            ) by {
                lemma_sizes_bound(cs, cs.len(), i);
            }
        }
        kind_eq(self, other, Ghost(1 + ExprView::sizes(cs, cs.len())))
    }
}

impl<T: TypeBounds> PartialEqSpecImpl for ExprKind<T> {
    open spec fn obeys_eq_spec() -> bool {
        true
    }

    open spec fn eq_spec(&self, other: &Self) -> bool {
        &&& kind_head(*self).same(kind_head(*other))
        &&& ExprView::same_lists(kind_children(*self), kind_children(*other))
    }
}

impl<T: TypeBounds> PartialEq for Expr<T> {
    fn eq(&self, other: &Self) -> (res: bool) {
        expr_eq(self, other)
    }
}

impl<T: TypeBounds> PartialEqSpecImpl for Expr<T> {
    open spec fn obeys_eq_spec() -> bool {
        true
    }

    open spec fn eq_spec(&self, other: &Self) -> bool {
        self@.same(other@)
    }
}

} // verus!
