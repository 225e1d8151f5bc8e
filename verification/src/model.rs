//! The mathematical model of the tree: what a symbol, a type and an
//! expression are once storage is forgotten.

use vstd::prelude::*;
use crate::ast::{BinOpKind, ScalarKind};

verus! {

/// A symbol as a value: its name and the number that tells copies of the
/// name apart.
pub struct SymbolView {
    pub name: Seq<char>,
    pub id: i32,
}

/// A data type as a value.
pub enum TypeView {
    Scalar(ScalarKind),
    Vector(Box<TypeView>),
    Builder(BuilderKindView),
    Struct(Seq<TypeView>),
    Function(Seq<TypeView>, Box<TypeView>),
}

/// A builder kind as a value.
pub enum BuilderKindView {
    Appender(Box<TypeView>),
    Merger(Box<TypeView>, BinOpKind),
}

/// A parameter of a lambda as a value.
pub struct ParameterView<A> {
    pub name: SymbolView,
    pub ty: A,
}

/// Which of its optional parts an iterator of a `For` carries. The vector it
/// walks is always there.
pub struct IterShape {
    pub has_start: bool,
    pub has_end: bool,
    pub has_stride: bool,
}

/// What a node holds besides its annotation and its children: the kind of the
/// node with the values that are no expressions.
pub enum Head<A> {
    BoolLiteral(bool),
    I32Literal(i32),
    I64Literal(i64),
    /// A 32-bit float, by its IEEE 754 bits.
    F32Literal(u32),
    /// A 64-bit float, by its IEEE 754 bits.
    F64Literal(u64),
    Ident(SymbolView),
    BinOp(BinOpKind),
    MakeStruct,
    MakeVector,
    GetField(u32),
    Length,
    Let(SymbolView),
    If,
    Lambda(Seq<ParameterView<A>>),
    Apply,
    NewBuilder,
    For(Seq<IterShape>),
    Merge,
    Res,
}

/// An expression as a value: an annotation, a head, and the children in
/// their canonical order.
///
/// | head | children |
/// |---|---|
/// | literals, `Ident`, `NewBuilder` | none |
/// | `BinOp` | left, right |
/// | `MakeStruct`, `MakeVector` | the elements |
/// | `GetField`, `Length`, `Res` | the one operand |
/// | `Let` | value, body |
/// | `If` | condition, then, else |
/// | `Lambda` | body |
/// | `Apply` | function, then the arguments |
/// | `For` | for each iterator its data, start, end and stride as far as present; then builder, function |
/// | `Merge` | builder, value |
pub struct ExprView<A> {
    pub ty: A,
    pub head: Head<A>,
    pub children: Seq<ExprView<A>>,
}

impl<A> ExprView<A> {
    /// The number of nodes of the tree.
    pub open spec fn size(self) -> nat
        decreases self,
    {
        1 + Self::sizes(self.children, self.children.len())
    }

    /// The number of nodes of the first `n` trees of `cs`.
    pub open spec fn sizes(cs: Seq<ExprView<A>>, n: nat) -> nat
        decreases cs, n,
    {
        if n == 0 || n > cs.len() {
            0
        } else {
            Self::sizes(cs, (n - 1) as nat) + cs[n - 1].size()
        }
    }

    /// The nodes of the tree in pre-order: the node itself, then the nodes
    /// of each child in turn.
    pub open spec fn preorder(self) -> Seq<ExprView<A>>
        decreases self,
    {
        seq![self] + Self::preorders(self.children, self.children.len())
    }

    /// The nodes of the first `n` trees of `cs` in pre-order, tree after
    /// tree.
    pub open spec fn preorders(cs: Seq<ExprView<A>>, n: nat) -> Seq<ExprView<A>>
        decreases cs, n,
    {
        if n == 0 || n > cs.len() {
            Seq::empty()
        } else {
            Self::preorders(cs, (n - 1) as nat) + cs[n - 1].preorder()
        }
    }
}

/// The first `n` trees of a list are part of its size.
pub proof fn lemma_sizes_bound<A>(cs: Seq<ExprView<A>>, n: nat, i: int)
    requires
        0 <= i < n <= cs.len(),
    ensures
        cs[i].size() <= ExprView::sizes(cs, n),
    decreases n,
{
    if i < n - 1 {
        lemma_sizes_bound(cs, (n - 1) as nat, i);
    }
}

/// A child has fewer nodes than its parent.
pub proof fn lemma_child_smaller<A>(e: ExprView<A>, i: int)
    requires
        0 <= i < e.children.len(),
    ensures
        e.children[i].size() < e.size(),
{
    lemma_sizes_bound(e.children, e.children.len(), i);
}

/// The pre-order lists as many nodes as the tree has.
pub proof fn lemma_preorder_len<A>(e: ExprView<A>)
    ensures
        e.preorder().len() == e.size(),
    decreases e, 1nat,
{
    lemma_preorders_len(e.children, e.children.len());
}

/// The pre-order of the first `n` trees lists as many nodes as they have.
pub proof fn lemma_preorders_len<A>(cs: Seq<ExprView<A>>, n: nat)
    requires
        n <= cs.len(),
    ensures
        ExprView::preorders(cs, n).len() == ExprView::sizes(cs, n),
    decreases cs, n,
{
    if n > 0 {
        lemma_preorders_len(cs, (n - 1) as nat);
        lemma_preorder_len(cs[n - 1]);
    }
}

} // verus!
