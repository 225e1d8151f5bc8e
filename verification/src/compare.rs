//! Comparison of two expressions up to the names of bound symbols.

use vstd::prelude::*;
use vstd::string::StringExecFns;
use crate::ast::{param_views, Expr, ExprKind, Parameter, Symbol, TypeBounds};
use crate::children::views_of;
use crate::error::{WeldError, WeldResult};
use crate::model::{lemma_child_smaller, ExprView, Head, ParameterView, SymbolView};

verus! {

/// What comparing two trees up to the names of bound symbols gives.
#[derive(PartialEq, Eq, Structural, Clone, Copy, Debug)]
pub enum Outcome {
    /// The trees are the same but for the names of bound symbols.
    Equal,
    /// The trees differ.
    NotEqual,
    /// The walk met an identifier on the left that no binder before it had
    /// introduced.
    Undefined,
}

/// The symbols of the right tree that stand for symbols of the left tree.
pub type SymbolMap = Map<SymbolView, SymbolView>;

/// The bits of a 32-bit float without its sign.
pub open spec fn single_magnitude(bits: u32) -> int {
    if bits >= 0x8000_0000 {
        bits - 0x8000_0000
    } else {
        bits as int
    }
}

/// Whether two 32-bit floats, given by their bits, are equal as numbers:
/// neither is a NaN, and they have the same bits or are both zero.
pub open spec fn single_equal(a: u32, b: u32) -> bool {
    &&& single_magnitude(a) <= 0x7f80_0000
    &&& single_magnitude(b) <= 0x7f80_0000
    &&& (a == b || (single_magnitude(a) == 0 && single_magnitude(b) == 0))
}

/// The bits of a 64-bit float without its sign.
pub open spec fn double_magnitude(bits: u64) -> int {
    if bits >= 0x8000_0000_0000_0000 {
        bits - 0x8000_0000_0000_0000
    } else {
        bits as int
    }
}

/// Whether two 64-bit floats, given by their bits, are equal as numbers:
/// neither is a NaN, and they have the same bits or are both zero.
pub open spec fn double_equal(a: u64, b: u64) -> bool {
    &&& double_magnitude(a) <= 0x7ff0_0000_0000_0000
    &&& double_magnitude(b) <= 0x7ff0_0000_0000_0000
    &&& (a == b || (double_magnitude(a) == 0 && double_magnitude(b) == 0))
}

/// `Equal` if `b`, else `NotEqual`.
pub open spec fn equal_if(b: bool) -> Outcome {
    if b {
        Outcome::Equal
    } else {
        Outcome::NotEqual
    }
}

impl<A> Head<A> {
    /// Whether two parameter lists have the same length and, position by
    /// position, the same annotations.
    pub open spec fn same_param_types(left: Seq<ParameterView<A>>, right: Seq<ParameterView<A>>) -> bool {
        &&& left.len() == right.len()
        &&& forall|i: int| 0 <= i < left.len() ==> (#[trigger] left[i]).ty == right[i].ty
    }

    /// The map `m` after the names of the first `n` parameters of `left` were
    /// given, in order, the names of the parameters of `right` at the same
    /// positions.
    pub open spec fn bind_params(
        left: Seq<ParameterView<A>>,
        right: Seq<ParameterView<A>>,
        n: nat,
        m: SymbolMap,
    ) -> SymbolMap
        decreases n,
    {
        if n == 0 || n > left.len() || n > right.len() {
            m
        } else {
            Self::bind_params(left, right, (n - 1) as nat, m).insert(left[n - 1].name, right[n - 1].name)
        }
    }

    /// The comparison of two heads, and the map after it. Only `Let` and
    /// `Lambda` add to the map; only an `Ident` reads it.
    pub open spec fn check(self, other: Head<A>, m: SymbolMap) -> (Outcome, SymbolMap) {
        match (self, other) {
            (Head::BinOp(k1), Head::BinOp(k2)) => (equal_if(k1 == k2), m),
            (Head::Let(s1), Head::Let(s2)) => (Outcome::Equal, m.insert(s1, s2)),
            (Head::Lambda(left), Head::Lambda(right)) => {
                if Self::same_param_types(left, right) {
                    (Outcome::Equal, Self::bind_params(left, right, left.len(), m))
                } else {
                    (Outcome::NotEqual, m)
                }
            },
            (Head::NewBuilder, Head::NewBuilder) => (Outcome::Equal, m),
            (Head::MakeStruct, Head::MakeStruct) => (Outcome::Equal, m),
            (Head::MakeVector, Head::MakeVector) => (Outcome::Equal, m),
            (Head::GetField(i1), Head::GetField(i2)) => (equal_if(i1 == i2), m),
            (Head::Length, Head::Length) => (Outcome::Equal, m),
            (Head::Merge, Head::Merge) => (Outcome::Equal, m),
            (Head::Res, Head::Res) => (Outcome::Equal, m),
            (Head::For(_), Head::For(_)) => (Outcome::Equal, m),
            (Head::If, Head::If) => (Outcome::Equal, m),
            (Head::Apply, Head::Apply) => (Outcome::Equal, m),
            (Head::BoolLiteral(l), Head::BoolLiteral(r)) => (equal_if(l == r), m),
            (Head::I32Literal(l), Head::I32Literal(r)) => (equal_if(l == r), m),
            (Head::I64Literal(l), Head::I64Literal(r)) => (equal_if(l == r), m),
            (Head::F32Literal(l), Head::F32Literal(r)) => (equal_if(single_equal(l, r)), m),
            (Head::F64Literal(l), Head::F64Literal(r)) => (equal_if(double_equal(l, r)), m),
            (Head::Ident(l), Head::Ident(r)) => {
                if m.contains_key(l) {
                    (equal_if(m[l] == r), m)
                } else {
                    (Outcome::Undefined, m)
                }
            },
            _ => (Outcome::NotEqual, m),
        }
    }
}

impl<A> ExprView<A> {
    /// The comparison of two trees by a walk of both in step, from the map
    /// `m`, and the map after the walk. The annotations are compared first,
    /// then the heads, then the numbers of children, then the children in
    /// order; the first of these that is not `Equal` ends the walk.
    pub open spec fn compare_walk(self, other: ExprView<A>, m: SymbolMap) -> (Outcome, SymbolMap)
        decreases self,
    {
        if self.ty != other.ty {
            (Outcome::NotEqual, m)
        } else {
            let (c, m1) = self.head.check(other.head, m);
            if c != Outcome::Equal {
                (c, m1)
            } else if self.children.len() != other.children.len() {
                (Outcome::NotEqual, m1)
            } else {
                Self::compare_children(self.children, other.children, self.children.len(), m1)
            }
        }
    }

    /// The comparison of the first `n` trees of `cs1` with those of `cs2`,
    /// pair by pair in order, from the map `m`. The first pair that is not
    /// `Equal` ends it.
    pub open spec fn compare_children(
        cs1: Seq<ExprView<A>>,
        cs2: Seq<ExprView<A>>,
        n: nat,
        m: SymbolMap,
    ) -> (Outcome, SymbolMap)
        decreases cs1, n,
    {
        if n == 0 || n > cs1.len() {
            (Outcome::Equal, m)
        } else {
            let (c, m1) = Self::compare_children(cs1, cs2, (n - 1) as nat, m);
            if c != Outcome::Equal {
                (c, m1)
            } else {
                cs1[n - 1].compare_walk(cs2[n - 1], m1)
            }
        }
    }

    /// Whether two trees are the same up to the names of bound symbols: the
    /// walk from the empty map.
    pub open spec fn compare(self, other: ExprView<A>) -> Outcome {
        self.compare_walk(other, Map::empty()).0
    }
}

/// The map that a list of pairs stands for: each pair gives its left symbol
/// the right one, and a later pair wins over an earlier one.
pub open spec fn pairs_map(pairs: Seq<(&Symbol, &Symbol)>) -> SymbolMap
    decreases pairs.len(),
{
    if pairs.len() == 0 {
        Map::empty()
    } else {
        pairs_map(pairs.drop_last()).insert(pairs.last().0@, pairs.last().1@)
    }
}

/// A pair added at the end is an insertion into the map.
proof fn lemma_pairs_push(pairs: Seq<(&Symbol, &Symbol)>, l: &Symbol, r: &Symbol)
    ensures
        pairs_map(pairs.push((l, r))) == pairs_map(pairs).insert(l@, r@),
{
    assert(pairs.push((l, r)).drop_last() =~= pairs);
}

/// The outcome that a result stands for.
pub open spec fn outcome_of(res: WeldResult<bool>) -> Outcome {
    match res {
        Ok(b) => equal_if(b),
        Err(_) => Outcome::Undefined,
    }
}

/// The message of the error for a symbol that no binder has introduced.
pub open spec fn undefined_symbol_message() -> Seq<char> {
    "undefined symbol when comparing expressions"@
}

/// Whether two 32-bit floats, given by their bits, are equal as numbers.
pub fn single_bits_equal(a: u32, b: u32) -> (res: bool)
    ensures
        res == single_equal(a, b),
{
    let ma: u32 = if a >= 0x8000_0000 { a - 0x8000_0000 } else { a };
    let mb: u32 = if b >= 0x8000_0000 { b - 0x8000_0000 } else { b };
    ma <= 0x7f80_0000 && mb <= 0x7f80_0000 && (a == b || (ma == 0 && mb == 0))
}

/// Whether two 64-bit floats, given by their bits, are equal as numbers.
pub fn double_bits_equal(a: u64, b: u64) -> (res: bool)
    ensures
        res == double_equal(a, b),
{
    let ma: u64 = if a >= 0x8000_0000_0000_0000 { a - 0x8000_0000_0000_0000 } else { a };
    let mb: u64 = if b >= 0x8000_0000_0000_0000 { b - 0x8000_0000_0000_0000 } else { b };
    ma <= 0x7ff0_0000_0000_0000 && mb <= 0x7ff0_0000_0000_0000 && (a == b || (ma == 0 && mb == 0))
}

/// The symbol that the latest pair with `key` on its left gives it.
fn lookup<'a, 'b>(pairs: &Vec<(&'a Symbol, &'b Symbol)>, key: &Symbol) -> (res: Option<&'b Symbol>)
    ensures
        match res {
            Some(r) => pairs_map(pairs@).contains_key(key@) && pairs_map(pairs@)[key@] == r@,
            None => !pairs_map(pairs@).contains_key(key@),
        },
{
    let mut i: usize = pairs.len();
    assert(pairs@.subrange(0, i as int) =~= pairs@);
    while i > 0
        invariant
            i <= pairs.len(),
            pairs_map(pairs@).contains_key(key@) == pairs_map(pairs@.subrange(0, i as int)).contains_key(key@),
            pairs_map(pairs@).contains_key(key@) ==> pairs_map(pairs@)[key@] == pairs_map(pairs@.subrange(0, i as int))[key@],
        decreases i,
    {
        let (l, r) = pairs[i - 1];
        proof {
            let cur = pairs@.subrange(0, i as int);
            assert(cur.drop_last() =~= pairs@.subrange(0, i - 1));
            assert(cur.last() == pairs@[i - 1]);
        }
        if *l == *key {
            return Some(r);
        }
        i -= 1;
    }
    assert(pairs@.subrange(0, 0) =~= Seq::empty());
    None
}

/// Whether two parameter lists have the same annotations, position by
/// position. They have the same length.
fn same_types<T: TypeBounds>(left: &Vec<Parameter<T>>, right: &Vec<Parameter<T>>) -> (res: bool)
    requires
        left@.len() == right@.len(),
    ensures
        res == Head::same_param_types(param_views(left@), param_views(right@)),
{
    let mut i: usize = 0;
    while i < left.len()
        invariant
            i <= left.len(),
            left@.len() == right@.len(),
            forall|k: int| 0 <= k < i ==> (#[trigger] param_views(left@)[k]).ty == param_views(right@)[k].ty,
        decreases left.len() - i,
    {
        proof {
            T::eq_decides_view(&left@[i as int].ty, &right@[i as int].ty);
        }
        if left[i].ty != right[i].ty {
            assert(param_views(left@)[i as int].ty != param_views(right@)[i as int].ty);
            return false;
        }
        i += 1;
    }
    true
}

/// Compares the heads of two nodes and records the symbols that they bind.
fn compare_heads<'a, 'b, T: TypeBounds>(
    e1: &'a Expr<T>,
    e2: &'b Expr<T>,
    sym_map: &mut Vec<(&'a Symbol, &'b Symbol)>,
) -> (res: WeldResult<bool>)
    ensures
        (outcome_of(res), pairs_map(final(sym_map)@)) == e1@.head.check(e2@.head, pairs_map(old(sym_map)@)),
        res matches Err(e) ==> e.message() == undefined_symbol_message(),
{
    match (&e1.kind, &e2.kind) {
        (ExprKind::BinOp { kind: kind1, .. }, ExprKind::BinOp { kind: kind2, .. }) => Ok(
            *kind1 == *kind2,
        ),
        (ExprKind::Let { name: sym1, .. }, ExprKind::Let { name: sym2, .. }) => {
            proof {
                lemma_pairs_push(sym_map@, sym1, sym2);
            }
            sym_map.push((sym1, sym2));
            Ok(true)
        },
        (ExprKind::Lambda { params: params1, .. }, ExprKind::Lambda { params: params2, .. }) => {
            if params1.len() == params2.len() && same_types(params1, params2) {
                let ghost left = param_views(params1@);
                let ghost right = param_views(params2@);
                let ghost m0 = pairs_map(sym_map@);
                let mut i: usize = 0;
                while i < params1.len()
                    invariant
                        i <= params1.len(),
                        params1@.len() == params2@.len(),
                        left == param_views(params1@),
                        right == param_views(params2@),
                        pairs_map(sym_map@) == Head::bind_params(left, right, i as nat, m0),
                    decreases params1.len() - i,
                {
                    proof {
                        lemma_pairs_push(sym_map@, &params1@[i as int].name, &params2@[i as int].name);
                    }
                    sym_map.push((&params1[i].name, &params2[i].name));
                    i += 1;
                }
                Ok(true)
            } else {
                Ok(false)
            }
        },
        (ExprKind::NewBuilder, ExprKind::NewBuilder) => Ok(true),
        (ExprKind::MakeStruct { .. }, ExprKind::MakeStruct { .. }) => Ok(true),
        (ExprKind::MakeVector { .. }, ExprKind::MakeVector { .. }) => Ok(true),
        (ExprKind::GetField { index: idx1, .. }, ExprKind::GetField { index: idx2, .. }) => Ok(
            *idx1 == *idx2,
        ),
        (ExprKind::Length { .. }, ExprKind::Length { .. }) => Ok(true),
        (ExprKind::Merge { .. }, ExprKind::Merge { .. }) => Ok(true),
        (ExprKind::Res { .. }, ExprKind::Res { .. }) => Ok(true),
        (ExprKind::For { .. }, ExprKind::For { .. }) => Ok(true),
        (ExprKind::If { .. }, ExprKind::If { .. }) => Ok(true),
        (ExprKind::Apply { .. }, ExprKind::Apply { .. }) => Ok(true),
        (ExprKind::BoolLiteral(l), ExprKind::BoolLiteral(r)) => Ok(*l == *r),
        (ExprKind::I32Literal(l), ExprKind::I32Literal(r)) => Ok(*l == *r),
        (ExprKind::I64Literal(l), ExprKind::I64Literal(r)) => Ok(*l == *r),
        (ExprKind::F32Literal(l), ExprKind::F32Literal(r)) => Ok(single_bits_equal(*l, *r)),
        (ExprKind::F64Literal(l), ExprKind::F64Literal(r)) => Ok(double_bits_equal(*l, *r)),
        (ExprKind::Ident(l), ExprKind::Ident(r)) => {
            match lookup(sym_map, l) {
                Some(lv) => Ok(*lv == *r),
                None => Err(
                    WeldError::new(String::from_str("undefined symbol when comparing expressions")),
                ),
            }
        },
        _ => Ok(false),
    }
}

/// Compares two trees by a walk of both in step, from the symbols recorded
/// so far.
fn compare_from<'a, 'b, T: TypeBounds>(
    e1: &'a Expr<T>,
    e2: &'b Expr<T>,
    sym_map: &mut Vec<(&'a Symbol, &'b Symbol)>,
) -> (res: WeldResult<bool>)
    ensures
        (outcome_of(res), pairs_map(final(sym_map)@)) == e1@.compare_walk(e2@, pairs_map(old(sym_map)@)),
        res matches Err(e) ==> e.message() == undefined_symbol_message(),
    decreases e1@.size(),
{
    proof {
        T::eq_decides_view(&e1.ty, &e2.ty);
    }
    if e1.ty != e2.ty {
        return Ok(false);
    }
    let same_kind = compare_heads(e1, e2, sym_map);
    match same_kind {
        Ok(true) => {},
        _ => {
            return same_kind;
        },
    }
    let e1_children = e1.child_refs();
    let e2_children = e2.child_refs();
    if e1_children.len() != e2_children.len() {
        return Ok(false);
    }
    let ghost m1 = pairs_map(sym_map@);
    let mut i: usize = 0;
    while i < e1_children.len()
        invariant
            i <= e1_children.len(),
            e1_children.len() == e2_children.len(),
            views_of(e1_children@) == e1@.children,
            views_of(e2_children@) == e2@.children,
            e1@.compare_walk(e2@, pairs_map(old(sym_map)@)) == ExprView::compare_children(
                e1@.children,
                e2@.children,
                e1@.children.len(),
                m1,
            ),
            (Outcome::Equal, pairs_map(sym_map@)) == ExprView::compare_children(
                e1@.children,
                e2@.children,
                i as nat,
                m1,
            ),
        decreases e1_children.len() - i,
    {
        proof {
            assert(views_of(e1_children@)[i as int] == e1@.children[i as int]);
            assert(views_of(e2_children@)[i as int] == e2@.children[i as int]);
            lemma_child_smaller(e1@, i as int);
        }
        let ghost m_before = pairs_map(sym_map@);
        let res = compare_from(e1_children[i], e2_children[i], sym_map);
        proof {
            let step = ExprView::compare_children(e1@.children, e2@.children, (i + 1) as nat, m1);
            assert(ExprView::compare_children(e1@.children, e2@.children, i as nat, m1) == (Outcome::Equal, m_before));
            assert(step == e1@.children[i as int].compare_walk(e2@.children[i as int], m_before));
            assert(step == (outcome_of(res), pairs_map(sym_map@)));
        }
        match res {
            Ok(true) => {},
            _ => {
                proof {
                    lemma_compare_children_stops(e1@.children, e2@.children, (i + 1) as nat, e1@.children.len(), m1);
                }
                return res;
            },
        }
        i += 1;
    }
    Ok(true)
}

/// Once a pair is not `Equal`, the comparison of more pairs gives the same.
pub proof fn lemma_compare_children_stops<A>(
    cs1: Seq<ExprView<A>>,
    cs2: Seq<ExprView<A>>,
    k: nat,
    n: nat,
    m: SymbolMap,
)
    requires
        k <= n <= cs1.len(),
        ExprView::compare_children(cs1, cs2, k, m).0 != Outcome::Equal,
    ensures
        ExprView::compare_children(cs1, cs2, n, m) == ExprView::compare_children(cs1, cs2, k, m),
    decreases n,
{
    if k < n {
        lemma_compare_children_stops(cs1, cs2, k, (n - 1) as nat, m);
    }
}

impl<T: TypeBounds> Expr<T> {
    /// Compares two expressions up to the names of bound symbols: `Ok(true)`
    /// if they are the same but for those names, `Ok(false)` if they differ,
    /// and an error if the walk meets an identifier in this expression that
    /// no `Let` or `Lambda` before it had introduced.
    ///
    /// The record of which symbol stands for which goes one way only: two
    /// symbols of this expression may stand for the same symbol of `other`.
    pub fn compare_ignoring_symbols(&self, other: &Expr<T>) -> (res: WeldResult<bool>)
        ensures
            outcome_of(res) == self@.compare(other@),
            res matches Err(e) ==> e.message() == undefined_symbol_message(),
    {
        let mut sym_map: Vec<(&Symbol, &Symbol)> = Vec::new();
        compare_from(self, other, &mut sym_map)
    }
}

} // verus!
