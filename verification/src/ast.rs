//! The data types of the tree: symbols, types and expressions.

use vstd::prelude::*;
use vstd::std_specs::cmp::PartialEqSpec;
use vstd::std_specs::cmp::PartialEqSpecImpl;
use crate::model::{BuilderKindView, ExprView, Head, IterShape, ParameterView, SymbolView, TypeView};

verus! {

/// An identifier: a name, and a number that tells apart the copies of a name
/// that later passes make. The number 0 is the plain form.
#[derive(Debug, Hash)]
pub struct Symbol {
    pub name: String,
    pub id: i32,
}

impl View for Symbol {
    type V = SymbolView;

    open spec fn view(&self) -> SymbolView {
        SymbolView { name: self.name@, id: self.id }
    }
}

impl Clone for Symbol {
    fn clone(&self) -> (res: Self)
        ensures
            res@ == self@,
    {
        Symbol { name: self.name.clone(), id: self.id }
    }
}

impl PartialEq for Symbol {
    fn eq(&self, other: &Self) -> (res: bool) {
        self.name == other.name && self.id == other.id
    }
}

impl PartialEqSpecImpl for Symbol {
    open spec fn obeys_eq_spec() -> bool {
        true
    }

    open spec fn eq_spec(&self, other: &Self) -> bool {
        self@ == other@
    }
}

impl Eq for Symbol {}

/// The kind of a scalar value.
#[derive(Clone, Copy, Debug, PartialEq, Eq, Hash, Structural)]
pub enum ScalarKind {
    Bool,
    I32,
    I64,
    F32,
    F64,
}

/// The kind of a binary operator.
#[derive(Clone, Copy, Debug, PartialEq, Eq, Hash, Structural)]
pub enum BinOpKind {
    Add,
    Subtract,
    Multiply,
    Divide,
    Modulo,
    Equal,
    NotEqual,
    LessThan,
    LessThanOrEqual,
    GreaterThan,
    GreaterThanOrEqual,
    LogicalAnd,
    LogicalOr,
    BitwiseAnd,
    BitwiseOr,
    Xor,
}

impl BinOpKind {
    /// The operators that this predicate calls comparisons: `==`, `!=`, `<`
    /// and `>`.
    pub open spec fn spec_is_comparison(self) -> bool {
        self == BinOpKind::Equal || self == BinOpKind::NotEqual || self == BinOpKind::LessThan
            || self == BinOpKind::GreaterThan
    }

    /// Whether this operator is one of `==`, `!=`, `<` and `>`.
    pub fn is_comparison(&self) -> (res: bool)
        ensures
            res == self.spec_is_comparison(),
    {
        match *self {
            BinOpKind::Equal | BinOpKind::NotEqual | BinOpKind::LessThan | BinOpKind::GreaterThan => true,
            _ => false,
        }
    }
}

/// A data type.
#[derive(Debug, Hash)]
pub enum Type {
    Scalar(ScalarKind),
    Vector(Box<Type>),
    Builder(BuilderKind),
    Struct(Vec<Type>),
    Function(Vec<Type>, Box<Type>),
}

/// The kind of a builder: what it accumulates, and how.
#[derive(Debug, Hash)]
pub enum BuilderKind {
    /// Collects elements into a vector.
    Appender(Box<Type>),
    /// Reduces elements with a binary operator.
    Merger(Box<Type>, BinOpKind),
}

/// The model of a type.
pub open spec fn type_view(t: Type) -> TypeView
    decreases t,
{
    match t {
        Type::Scalar(kind) => TypeView::Scalar(kind),
        Type::Vector(elem) => TypeView::Vector(Box::new(type_view(*elem))),
        Type::Builder(kind) => TypeView::Builder(builder_view(kind)),
        Type::Struct(fields) => TypeView::Struct(type_views(fields)),
        Type::Function(params, ret) => TypeView::Function(
            type_views(params),
            Box::new(type_view(*ret)),
        ),
    }
}

/// The model of a builder kind.
pub open spec fn builder_view(b: BuilderKind) -> BuilderKindView
    decreases b,
{
    match b {
        BuilderKind::Appender(elem) => BuilderKindView::Appender(Box::new(type_view(*elem))),
        BuilderKind::Merger(elem, op) => BuilderKindView::Merger(Box::new(type_view(*elem)), op),
    }
}

/// The models of a list of types, in order.
pub open spec fn type_views(ts: Vec<Type>) -> Seq<TypeView>
    decreases ts,
{
    Seq::new(
        ts@.len(),
        |i: int|
            if 0 <= i < ts@.len() {
                type_view(ts@[i])
            } else {
                TypeView::Scalar(ScalarKind::Bool)
            },
    )
}

impl View for Type {
    type V = TypeView;

    open spec fn view(&self) -> TypeView {
        type_view(*self)
    }
}

impl View for BuilderKind {
    type V = BuilderKindView;

    open spec fn view(&self) -> BuilderKindView {
        builder_view(*self)
    }
}

/// Whether two lists of types have the same models.
fn types_eq(a: &Vec<Type>, b: &Vec<Type>) -> (res: bool)
    ensures
        res == (type_views(*a) == type_views(*b)),
    decreases *a,
{
    if a.len() != b.len() {
        assert(type_views(*a).len() != type_views(*b).len());
        return false;
    }
    let mut i: usize = 0;
    while i < a.len()
        invariant
            i <= a.len(),
            a.len() == b.len(),
            forall|j: int| 0 <= j < i ==> type_view(a@[j]) == type_view(b@[j]),
        decreases a.len() - i,
    {
        if !type_eq(&a[i], &b[i]) {
            assert(type_views(*a)[i as int] != type_views(*b)[i as int]);
            return false;
        }
        i += 1;
    }
    assert(type_views(*a) =~= type_views(*b));
    true
}

/// Whether two builder kinds have the same model.
fn builder_eq(a: &BuilderKind, b: &BuilderKind) -> (res: bool)
    ensures
        res == (a@ == b@),
    decreases *a,
{
    match a {
        BuilderKind::Appender(e1) => match b {
            BuilderKind::Appender(e2) => type_eq(e1, e2),
            _ => false,
        },
        BuilderKind::Merger(e1, op1) => match b {
            BuilderKind::Merger(e2, op2) => type_eq(e1, e2) && *op1 == *op2,
            _ => false,
        },
    }
}

/// Whether two types have the same model.
fn type_eq(a: &Type, b: &Type) -> (res: bool)
    ensures
        res == (a@ == b@),
    decreases *a,
{
    match a {
        Type::Scalar(k1) => match b {
            Type::Scalar(k2) => *k1 == *k2,
            _ => false,
        },
        Type::Vector(e1) => match b {
            Type::Vector(e2) => type_eq(e1, e2),
            _ => false,
        },
        Type::Builder(b1) => match b {
            Type::Builder(b2) => builder_eq(b1, b2),
            _ => false,
        },
        Type::Struct(f1) => match b {
            Type::Struct(f2) => types_eq(f1, f2),
            _ => false,
        },
        Type::Function(left, ret1) => match b {
            Type::Function(right, ret2) => types_eq(left, right) && type_eq(ret1, ret2),
            _ => false,
        },
    }
}

/// A copy of a list of types.
fn types_clone(ts: &Vec<Type>) -> (res: Vec<Type>)
    ensures
        type_views(res) == type_views(*ts),
    decreases *ts,
{
    let mut out: Vec<Type> = Vec::new();
    let mut i: usize = 0;
    while i < ts.len()
        invariant
            i <= ts.len(),
            out.len() == i,
            forall|j: int| 0 <= j < i ==> type_view(out@[j]) == type_view(ts@[j]),
        decreases ts.len() - i,
    {
        let t = type_clone(&ts[i]);
        out.push(t);
        i += 1;
    }
    assert(type_views(out) =~= type_views(*ts));
    out
}

/// A copy of a builder kind.
fn builder_clone(b: &BuilderKind) -> (res: BuilderKind)
    ensures
        res@ == b@,
    decreases *b,
{
    match b {
        BuilderKind::Appender(elem) => BuilderKind::Appender(Box::new(type_clone(elem))),
        BuilderKind::Merger(elem, op) => BuilderKind::Merger(Box::new(type_clone(elem)), *op),
    }
}

/// A copy of a type.
fn type_clone(t: &Type) -> (res: Type)
    ensures
        res@ == t@,
    decreases *t,
{
    match t {
        Type::Scalar(kind) => Type::Scalar(*kind),
        Type::Vector(elem) => Type::Vector(Box::new(type_clone(elem))),
        Type::Builder(kind) => Type::Builder(builder_clone(kind)),
        Type::Struct(fields) => Type::Struct(types_clone(fields)),
        Type::Function(params, ret) => Type::Function(
            types_clone(params),
            Box::new(type_clone(ret)),
        ),
    }
}

impl Clone for Type {
    fn clone(&self) -> (res: Self)
        ensures
            res@ == self@,
    {
        type_clone(self)
    }
}

impl PartialEq for Type {
    fn eq(&self, other: &Self) -> (res: bool) {
        type_eq(self, other)
    }
}

impl PartialEqSpecImpl for Type {
    open spec fn obeys_eq_spec() -> bool {
        true
    }

    open spec fn eq_spec(&self, other: &Self) -> bool {
        self@ == other@
    }
}

impl Eq for Type {}

impl Clone for BuilderKind {
    fn clone(&self) -> (res: Self)
        ensures
            res@ == self@,
    {
        builder_clone(self)
    }
}

impl PartialEq for BuilderKind {
    fn eq(&self, other: &Self) -> (res: bool) {
        builder_eq(self, other)
    }
}

impl PartialEqSpecImpl for BuilderKind {
    open spec fn obeys_eq_spec() -> bool {
        true
    }

    open spec fn eq_spec(&self, other: &Self) -> bool {
        self@ == other@
    }
}

impl Eq for BuilderKind {}

/// What a type must offer to annotate the nodes of an expression tree: it
/// can be copied and compared, and both go by its model. The tree is used
/// with one annotation while types are being inferred and with [`Type`]
/// afterwards.
pub trait TypeBounds: Clone + PartialEq + View + Sized {
    /// `==` on the annotation decides whether two models are equal.
    proof fn eq_decides_view(a: &Self, b: &Self)
        ensures
            <Self as PartialEqSpec>::obeys_eq_spec(),
            PartialEqSpec::eq_spec(a, b) <==> a@ == b@,
    ;

    /// A clone has the model of the value it was made from.
    proof fn clone_keeps_view(a: &Self, b: &Self)
        requires
            cloned::<Self>(*a, *b),
        ensures
            a@ == b@,
    ;
}

impl TypeBounds for Type {
    proof fn eq_decides_view(a: &Self, b: &Self) {
    }

    proof fn clone_keeps_view(a: &Self, b: &Self) {
    }
}

/// An expression tree whose nodes carry an annotation of type `T`.
#[derive(Debug)]
pub struct Expr<T: TypeBounds> {
    pub ty: T,
    pub kind: ExprKind<T>,
}

/// One of the vectors that a `For` walks in step, with the part of it to
/// walk. Without start, end and stride it is the whole vector, element by
/// element.
#[derive(Debug)]
pub struct Iter<T: TypeBounds> {
    pub data: Box<Expr<T>>,
    pub start: Option<Box<Expr<T>>>,
    pub end: Option<Box<Expr<T>>>,
    pub stride: Option<Box<Expr<T>>>,
}

/// The kinds of expression.
#[derive(Debug)]
#[allow(inconsistent_fields)]
pub enum ExprKind<T: TypeBounds> {
    BoolLiteral(bool),
    I32Literal(i32),
    I64Literal(i64),
    /// A 32-bit float constant, held as its IEEE 754 bits.
    F32Literal(u32),
    /// A 64-bit float constant, held as its IEEE 754 bits.
    F64Literal(u64),
    /// A reference to a symbol that a `Let` or a `Lambda` around it binds.
    Ident(Symbol),
    BinOp { kind: BinOpKind, left: Box<Expr<T>>, right: Box<Expr<T>> },
    MakeStruct { elems: Vec<Expr<T>> },
    MakeVector { elems: Vec<Expr<T>> },
    GetField { expr: Box<Expr<T>>, index: u32 },
    Length { data: Box<Expr<T>> },
    /// Binds `name` to `value` in `body`.
    Let { name: Symbol, value: Box<Expr<T>>, body: Box<Expr<T>> },
    If { cond: Box<Expr<T>>, on_true: Box<Expr<T>>, on_false: Box<Expr<T>> },
    /// Binds `params` in `body`.
    Lambda { params: Vec<Parameter<T>>, body: Box<Expr<T>> },
    Apply { func: Box<Expr<T>>, params: Vec<Expr<T>> },
    NewBuilder,
    For { iters: Vec<Iter<T>>, builder: Box<Expr<T>>, func: Box<Expr<T>> },
    Merge { builder: Box<Expr<T>>, value: Box<Expr<T>> },
    Res { builder: Box<Expr<T>> },
}

/// A parameter of a lambda.
#[derive(Debug, Hash)]
pub struct Parameter<T: TypeBounds> {
    pub name: Symbol,
    pub ty: T,
}

/// An expression annotated with types.
pub type TypedExpr = Expr<Type>;

/// A parameter annotated with its type.
pub type TypedParameter = Parameter<Type>;

impl<T: TypeBounds> View for Parameter<T> {
    type V = ParameterView<T::V>;

    open spec fn view(&self) -> ParameterView<T::V> {
        ParameterView { name: self.name@, ty: self.ty@ }
    }
}

/// The models of a list of parameters, in order.
pub open spec fn param_views<T: TypeBounds>(ps: Seq<Parameter<T>>) -> Seq<ParameterView<T::V>> {
    Seq::new(ps.len(), |i: int| ps[i]@)
}

/// Which optional parts an iterator carries.
pub open spec fn iter_shape<T: TypeBounds>(it: Iter<T>) -> IterShape {
    IterShape {
        has_start: it.start is Some,
        has_end: it.end is Some,
        has_stride: it.stride is Some,
    }
}

/// The shapes of a list of iterators, in order.
pub open spec fn iter_shapes<T: TypeBounds>(its: Seq<Iter<T>>) -> Seq<IterShape> {
    Seq::new(its.len(), |i: int| iter_shape(its[i]))
}

/// The head of a node of this kind.
pub open spec fn kind_head<T: TypeBounds>(k: ExprKind<T>) -> Head<T::V> {
    match k {
        ExprKind::BoolLiteral(v) => Head::BoolLiteral(v),
        ExprKind::I32Literal(v) => Head::I32Literal(v),
        ExprKind::I64Literal(v) => Head::I64Literal(v),
        ExprKind::F32Literal(v) => Head::F32Literal(v),
        ExprKind::F64Literal(v) => Head::F64Literal(v),
        ExprKind::Ident(sym) => Head::Ident(sym@),
        ExprKind::BinOp { kind, .. } => Head::BinOp(kind),
        ExprKind::MakeStruct { .. } => Head::MakeStruct,
        ExprKind::MakeVector { .. } => Head::MakeVector,
        ExprKind::GetField { index, .. } => Head::GetField(index),
        ExprKind::Length { .. } => Head::Length,
        ExprKind::Let { name, .. } => Head::Let(name@),
        ExprKind::If { .. } => Head::If,
        ExprKind::Lambda { params, .. } => Head::Lambda(param_views(params@)),
        ExprKind::Apply { .. } => Head::Apply,
        ExprKind::NewBuilder => Head::NewBuilder,
        ExprKind::For { iters, .. } => Head::For(iter_shapes(iters@)),
        ExprKind::Merge { .. } => Head::Merge,
        ExprKind::Res { .. } => Head::Res,
    }
}

/// The model of an expression.
pub open spec fn expr_view<T: TypeBounds>(e: Expr<T>) -> ExprView<T::V>
    decreases e,
{
    ExprView { ty: e.ty@, head: kind_head(e.kind), children: kind_children(e.kind) }
}

/// The models of the children of a node of this kind, in canonical order.
pub open spec fn kind_children<T: TypeBounds>(k: ExprKind<T>) -> Seq<ExprView<T::V>>
    decreases k,
{
    match k {
        ExprKind::BoolLiteral(_) | ExprKind::I32Literal(_) | ExprKind::I64Literal(_)
        | ExprKind::F32Literal(_) | ExprKind::F64Literal(_) | ExprKind::Ident(_)
        | ExprKind::NewBuilder => Seq::empty(),
        ExprKind::BinOp { left, right, .. } => seq![expr_view(*left), expr_view(*right)],
        ExprKind::MakeStruct { elems } => expr_views(elems@),
        ExprKind::MakeVector { elems } => expr_views(elems@),
        ExprKind::GetField { expr, .. } => seq![expr_view(*expr)],
        ExprKind::Length { data } => seq![expr_view(*data)],
        ExprKind::Let { value, body, .. } => seq![expr_view(*value), expr_view(*body)],
        ExprKind::If { cond, on_true, on_false } => seq![
            expr_view(*cond),
            expr_view(*on_true),
            expr_view(*on_false),
        ],
        ExprKind::Lambda { body, .. } => seq![expr_view(*body)],
        ExprKind::Apply { func, params } => seq![expr_view(*func)] + expr_views(params@),
        ExprKind::For { iters, builder, func } => iters_children(iters@, iters@.len())
            + seq![expr_view(*builder), expr_view(*func)],
        ExprKind::Merge { builder, value } => seq![expr_view(*builder), expr_view(*value)],
        ExprKind::Res { builder } => seq![expr_view(*builder)],
    }
}

/// The models of a list of expressions, in order.
pub open spec fn expr_views<T: TypeBounds>(es: Seq<Expr<T>>) -> Seq<ExprView<T::V>>
    decreases es,
{
    Seq::new(
        es.len(),
        |i: int|
            if 0 <= i < es.len() {
                expr_view(es[i])
            } else {
                arbitrary()
            },
    )
}

/// The model of an optional expression, as a list of at most one.
pub open spec fn opt_child<T: TypeBounds>(o: Option<Box<Expr<T>>>) -> Seq<ExprView<T::V>>
    decreases o,
{
    match o {
        Some(e) => seq![expr_view(*e)],
        None => Seq::empty(),
    }
}

/// The children that one iterator adds to its `For`: data, then start, end
/// and stride as far as present.
pub open spec fn iter_children<T: TypeBounds>(it: Iter<T>) -> Seq<ExprView<T::V>>
    decreases it,
{
    seq![expr_view(*it.data)] + opt_child(it.start) + opt_child(it.end) + opt_child(it.stride)
}

/// The children that the first `n` iterators add to their `For`.
pub open spec fn iters_children<T: TypeBounds>(its: Seq<Iter<T>>, n: nat) -> Seq<ExprView<T::V>>
    decreases its, n,
{
    if n == 0 || n > its.len() {
        Seq::empty()
    } else {
        iters_children(its, (n - 1) as nat) + iter_children(its[n - 1])
    }
}

/// The children of the first `n` iterators depend on those iterators only.
pub proof fn lemma_iters_children_agree<T: TypeBounds>(a: Seq<Iter<T>>, b: Seq<Iter<T>>, n: nat)
    requires
        n <= a.len(),
        n <= b.len(),
        forall|i: int| 0 <= i < n ==> iter_children(a[i]) == iter_children(b[i]),
    ensures
        iters_children(a, n) == iters_children(b, n),
    decreases n,
{
    if n > 0 {
        lemma_iters_children_agree(a, b, (n - 1) as nat);
    }
}

impl<T: TypeBounds> View for Expr<T> {
    type V = ExprView<T::V>;

    open spec fn view(&self) -> ExprView<T::V> {
        expr_view(*self)
    }
}

} // verus!
