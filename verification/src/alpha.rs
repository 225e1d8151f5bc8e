//! Renaming of symbols, and what the comparison makes of trees that differ
//! by a renaming or in their constants.

use vstd::prelude::*;
use crate::compare::{double_equal, equal_if, single_equal, Outcome, SymbolMap};
use crate::model::{ExprView, Head, ParameterView, SymbolView};

verus! {

/// A renaming: the symbol that takes the place of each symbol.
pub type Renaming = spec_fn(SymbolView) -> SymbolView;

/// Whether the map gives each of its symbols what the renaming gives it.
pub open spec fn follows(m: SymbolMap, rho: Renaming) -> bool {
    forall|k: SymbolView| m.contains_key(k) ==> #[trigger] m[k] == rho(k)
}

/// The parameters with their names renamed.
pub open spec fn rename_params<A>(ps: Seq<ParameterView<A>>, rho: Renaming) -> Seq<ParameterView<A>> {
    Seq::new(ps.len(), |i: int| ParameterView { name: rho(ps[i].name), ty: ps[i].ty })
}

/// The names of the first `n` parameters, added to `bound`.
pub open spec fn with_params<A>(ps: Seq<ParameterView<A>>, n: nat, bound: Set<SymbolView>) -> Set<SymbolView>
    decreases n,
{
    if n == 0 || n > ps.len() {
        bound
    } else {
        with_params(ps, (n - 1) as nat, bound).insert(ps[n - 1].name)
    }
}

impl<A> Head<A> {
    /// The head with every symbol in it renamed.
    pub open spec fn rename(self, rho: Renaming) -> Head<A> {
        match self {
            Head::Ident(s) => Head::Ident(rho(s)),
            Head::Let(s) => Head::Let(rho(s)),
            Head::Lambda(ps) => Head::Lambda(rename_params(ps, rho)),
            _ => self,
        }
    }

    /// Whether `other` is this head renamed, but for the value of a
    /// constant or the kind of a binary operator, which may differ.
    pub open spec fn corresponds(self, other: Head<A>, rho: Renaming) -> bool {
        match (self, other) {
            (Head::BoolLiteral(_), Head::BoolLiteral(_)) => true,
            (Head::I32Literal(_), Head::I32Literal(_)) => true,
            (Head::I64Literal(_), Head::I64Literal(_)) => true,
            (Head::F32Literal(_), Head::F32Literal(_)) => true,
            (Head::F64Literal(_), Head::F64Literal(_)) => true,
            (Head::BinOp(_), Head::BinOp(_)) => true,
            _ => other == self.rename(rho),
        }
    }

    /// Whether two heads have equal constants and the same operator, where
    /// they have any. Float constants are equal if they are equal as
    /// numbers.
    pub open spec fn agrees(self, other: Head<A>) -> bool {
        match (self, other) {
            (Head::BoolLiteral(l), Head::BoolLiteral(r)) => l == r,
            (Head::I32Literal(l), Head::I32Literal(r)) => l == r,
            (Head::I64Literal(l), Head::I64Literal(r)) => l == r,
            (Head::F32Literal(l), Head::F32Literal(r)) => single_equal(l, r),
            (Head::F64Literal(l), Head::F64Literal(r)) => double_equal(l, r),
            (Head::BinOp(k1), Head::BinOp(k2)) => k1 == k2,
            _ => true,
        }
    }

    /// The symbols that are bound once the walk has passed a node with this
    /// head: those bound before it, and what the head binds.
    pub open spec fn binds_into(self, bound: Set<SymbolView>) -> Set<SymbolView> {
        match self {
            Head::Let(s) => bound.insert(s),
            Head::Lambda(ps) => with_params(ps, ps.len(), bound),
            _ => bound,
        }
    }

    /// Whether the head, if it is an identifier, names a bound symbol.
    pub open spec fn defined_in(self, bound: Set<SymbolView>) -> bool {
        match self {
            Head::Ident(s) => bound.contains(s),
            _ => true,
        }
    }

    /// The symbols in whose scope the child at position `i` stands, beyond
    /// those of the node: the name of a `Let` for its body, the parameters
    /// of a `Lambda` for its body.
    pub open spec fn scope_of_child(self, i: int, bound: Set<SymbolView>) -> Set<SymbolView> {
        match self {
            Head::Let(s) => if i == 1 {
                bound.insert(s)
            } else {
                bound
            },
            Head::Lambda(ps) => if i == 0 {
                with_params(ps, ps.len(), bound)
            } else {
                bound
            },
            _ => bound,
        }
    }
}

impl<A> ExprView<A> {
    /// The tree with every symbol in it renamed.
    pub open spec fn rename(self, rho: Renaming) -> ExprView<A>
        decreases self,
    {
        ExprView {
            ty: self.ty,
            head: self.head.rename(rho),
            children: Seq::new(
                self.children.len(),
                |i: int|
                    if 0 <= i < self.children.len() {
                        self.children[i].rename(rho)
                    } else {
                        self
                    },
            ),
        }
    }

    /// Whether `other` is this tree renamed, but for the values of
    /// constants and the kinds of binary operators, which may differ.
    pub open spec fn corresponds(self, other: ExprView<A>, rho: Renaming) -> bool
        decreases self,
    {
        &&& self.ty == other.ty
        &&& self.head.corresponds(other.head, rho)
        &&& self.children.len() == other.children.len()
        &&& forall|i: int|
            0 <= i < self.children.len() ==> (#[trigger] self.children[i]).corresponds(other.children[i], rho)
    }

    /// Whether two trees have, node by node, equal constants and the same
    /// operators.
    pub open spec fn agrees(self, other: ExprView<A>) -> bool
        decreases self,
    {
        &&& self.head.agrees(other.head)
        &&& forall|i: int|
            0 <= i < self.children.len() ==> (#[trigger] self.children[i]).agrees(other.children[i])
    }

    /// Whether every float constant of the tree is a number.
    pub open spec fn numbers_only(self) -> bool
        decreases self,
    {
        &&& self.head.agrees(self.head)
        &&& forall|i: int| 0 <= i < self.children.len() ==> (#[trigger] self.children[i]).numbers_only()
    }

    /// The symbols that are bound after a walk of the tree that began with
    /// `bound`: a binder stays once the walk has passed it.
    pub open spec fn walk_bound(self, bound: Set<SymbolView>) -> Set<SymbolView>
        decreases self,
    {
        Self::walk_bound_children(self.children, self.children.len(), self.head.binds_into(bound))
    }

    /// The symbols that are bound after a walk of the first `n` trees of
    /// `cs`.
    pub open spec fn walk_bound_children(cs: Seq<ExprView<A>>, n: nat, bound: Set<SymbolView>) -> Set<
        SymbolView,
    >
        decreases cs, n,
    {
        if n == 0 || n > cs.len() {
            bound
        } else {
            cs[n - 1].walk_bound(Self::walk_bound_children(cs, (n - 1) as nat, bound))
        }
    }

    /// Whether every identifier of the tree names a symbol that is bound
    /// when the walk comes to it: one of `bound`, or one that a binder
    /// earlier in the walk has introduced.
    pub open spec fn walk_defined(self, bound: Set<SymbolView>) -> bool
        decreases self,
    {
        &&& self.head.defined_in(bound)
        &&& Self::walk_defined_children(self.children, self.children.len(), self.head.binds_into(bound))
    }

    /// The same for the first `n` trees of `cs`, walked in order.
    pub open spec fn walk_defined_children(cs: Seq<ExprView<A>>, n: nat, bound: Set<SymbolView>) -> bool
        decreases cs, n,
    {
        if n == 0 || n > cs.len() {
            true
        } else {
            &&& Self::walk_defined_children(cs, (n - 1) as nat, bound)
            &&& cs[n - 1].walk_defined(Self::walk_bound_children(cs, (n - 1) as nat, bound))
        }
    }

    /// Whether every identifier of the tree stands in the scope of a binder
    /// of its symbol, or names one of `bound`.
    pub open spec fn closed_under(self, bound: Set<SymbolView>) -> bool
        decreases self,
    {
        &&& self.head.defined_in(bound)
        &&& forall|i: int|
            0 <= i < self.children.len() ==> (#[trigger] self.children[i]).closed_under(
                self.head.scope_of_child(i, bound),
            )
    }

    /// Whether the tree is closed: every identifier stands in the scope of
    /// a `Let` or a `Lambda` of its symbol.
    pub open spec fn closed(self) -> bool {
        self.closed_under(Set::empty())
    }
}

/// Whether the first `n` trees of `cs` have, tree by tree, the constants
/// and operators of those of `os`.
pub open spec fn agree_upto<A>(cs: Seq<ExprView<A>>, os: Seq<ExprView<A>>, n: nat) -> bool {
    forall|i: int| 0 <= i < n ==> (#[trigger] cs[i]).agrees(os[i])
}

/// What the comparison gives for a tree `e` and a tree `o` that is `e`
/// renamed by `rho`, constants and operators apart, from a map `m` that
/// follows `rho`:
/// - if every identifier of `e` is defined in the walk, `Equal` or
///   `NotEqual`, as the constants and operators agree or not;
/// - if the constants and operators agree, `Equal` or `Undefined`, as every
///   identifier of `e` is defined in the walk or not;
/// - after `Equal`, the map still follows `rho`, and holds the symbols that
///   are bound after the walk.
pub open spec fn walk_is_as_expected(
    result: (Outcome, SymbolMap),
    defined: bool,
    agree: bool,
    bound_after: Set<SymbolView>,
    rho: Renaming,
) -> bool {
    &&& defined ==> result.0 == equal_if(agree)
    &&& agree ==> result.0 == (if defined {
        Outcome::Equal
    } else {
        Outcome::Undefined
    })
    &&& result.0 == Outcome::Equal ==> follows(result.1, rho) && result.1.dom() == bound_after
}

/// Binding the parameters of a lambda to their renamed names keeps a map
/// that follows the renaming, and adds the names to what is bound.
pub proof fn lemma_bind_params<A>(ps: Seq<ParameterView<A>>, rho: Renaming, n: nat, m: SymbolMap)
    requires
        follows(m, rho),
        n <= ps.len(),
    ensures
        follows(Head::bind_params(ps, rename_params(ps, rho), n, m), rho),
        Head::bind_params(ps, rename_params(ps, rho), n, m).dom() == with_params(ps, n, m.dom()),
    decreases n,
{
    if n > 0 {
        lemma_bind_params(ps, rho, (n - 1) as nat, m);
        let prev = Head::bind_params(ps, rename_params(ps, rho), (n - 1) as nat, m);
        let next = Head::bind_params(ps, rename_params(ps, rho), n, m);
        assert(next == prev.insert(ps[n - 1].name, rho(ps[n - 1].name)));
        assert(next.dom() =~= with_params(ps, n, m.dom()));
    }
}

/// The comparison of a head with its renamed counterpart.
pub proof fn lemma_check_head<A>(h: Head<A>, o: Head<A>, rho: Renaming, m: SymbolMap)
    requires
        follows(m, rho),
        h.corresponds(o, rho),
    ensures
        walk_is_as_expected(h.check(o, m), h.defined_in(m.dom()), h.agrees(o), h.binds_into(m.dom()), rho),
{
    match h {
        Head::Let(s) => {
            assert(m.insert(s, rho(s)).dom() =~= m.dom().insert(s));
        },
        Head::Lambda(ps) => {
            lemma_bind_params(ps, rho, ps.len(), m);
            assert(Head::same_param_types(ps, rename_params(ps, rho)));
        },
        _ => {},
    }
}

/// The comparison of a tree with its renamed counterpart.
pub proof fn lemma_compare_walk<A>(e: ExprView<A>, o: ExprView<A>, rho: Renaming, m: SymbolMap)
    requires
        follows(m, rho),
        e.corresponds(o, rho),
    ensures
        walk_is_as_expected(
            e.compare_walk(o, m),
            e.walk_defined(m.dom()),
            e.agrees(o),
            e.walk_bound(m.dom()),
            rho,
        ),
    decreases e, 1nat,
{
    lemma_check_head(e.head, o.head, rho, m);
    let (c1, m1) = e.head.check(o.head, m);
    if c1 == Outcome::Equal {
        lemma_compare_children(e.children, o.children, rho, e.children.len(), m1);
        assert(e.agrees(o) == (e.head.agrees(o.head) && agree_upto(e.children, o.children, e.children.len())));
    }
}

/// The comparison of the first `n` of a list of trees with their renamed
/// counterparts.
pub proof fn lemma_compare_children<A>(
    cs: Seq<ExprView<A>>,
    os: Seq<ExprView<A>>,
    rho: Renaming,
    n: nat,
    m: SymbolMap,
)
    requires
        follows(m, rho),
        n <= cs.len(),
        cs.len() == os.len(),
        forall|i: int| 0 <= i < cs.len() ==> (#[trigger] cs[i]).corresponds(os[i], rho),
    ensures
        walk_is_as_expected(
            ExprView::compare_children(cs, os, n, m),
            ExprView::walk_defined_children(cs, n, m.dom()),
            agree_upto(cs, os, n),
            ExprView::walk_bound_children(cs, n, m.dom()),
            rho,
        ),
    decreases cs, n,
{
    if n > 0 {
        lemma_compare_children(cs, os, rho, (n - 1) as nat, m);
        let (c, m1) = ExprView::compare_children(cs, os, (n - 1) as nat, m);
        assert(agree_upto(cs, os, n) == (agree_upto(cs, os, (n - 1) as nat) && cs[n - 1].agrees(os[n - 1])));
        if c == Outcome::Equal {
            assert(cs[n - 1].corresponds(os[n - 1], rho));
            lemma_compare_walk(cs[n - 1], os[n - 1], rho, m1);
        }
    }
}

/// A renamed tree corresponds to the tree it was made from.
pub proof fn lemma_rename_corresponds<A>(e: ExprView<A>, rho: Renaming)
    ensures
        e.corresponds(e.rename(rho), rho),
    decreases e,
{
    let o = e.rename(rho);
    assert forall|i: int| 0 <= i < e.children.len() implies (#[trigger] e.children[i]).corresponds(
        o.children[i],
        rho,
    ) by {
        lemma_rename_corresponds(e.children[i], rho);
    }
}

/// A tree whose float constants are numbers agrees with its renamings.
pub proof fn lemma_rename_agrees<A>(e: ExprView<A>, rho: Renaming)
    requires
        e.numbers_only(),
    ensures
        e.agrees(e.rename(rho)),
    decreases e,
{
    let o = e.rename(rho);
    assert forall|i: int| 0 <= i < e.children.len() implies (#[trigger] e.children[i]).agrees(o.children[i]) by {
        lemma_rename_agrees(e.children[i], rho);
    }
}

/// The renaming that gives each symbol itself changes nothing.
pub proof fn lemma_rename_identity<A>(e: ExprView<A>)
    ensures
        e.rename(|s: SymbolView| s) == e,
    decreases e,
{
    let rho = |s: SymbolView| s;
    let o = e.rename(rho);
    assert forall|i: int| 0 <= i < e.children.len() implies o.children[i] == e.children[i] by {
        lemma_rename_identity(e.children[i]);
    }
    assert(o.children =~= e.children);
    match e.head {
        Head::Lambda(ps) => {
            assert(rename_params(ps, rho) =~= ps);
        },
        _ => {},
    }
}

/// The names of parameters are added to what is bound; what is bound stays,
/// and more of it gives more.
pub proof fn lemma_with_params_grows<A>(
    ps: Seq<ParameterView<A>>,
    n: nat,
    small: Set<SymbolView>,
    large: Set<SymbolView>,
)
    requires
        small.subset_of(large),
    ensures
        small.subset_of(with_params(ps, n, large)),
        with_params(ps, n, small).subset_of(with_params(ps, n, large)),
    decreases n,
{
    if n > 0 && n <= ps.len() {
        lemma_with_params_grows(ps, (n - 1) as nat, small, large);
    }
}

/// A walk only adds to what is bound.
pub proof fn lemma_walk_bound_grows<A>(e: ExprView<A>, bound: Set<SymbolView>)
    ensures
        bound.subset_of(e.walk_bound(bound)),
    decreases e, 1nat,
{
    match e.head {
        Head::Lambda(ps) => {
            lemma_with_params_grows(ps, ps.len(), bound, bound);
        },
        _ => {},
    }
    lemma_walk_bound_children_grows(e.children, e.children.len(), e.head.binds_into(bound));
}

/// A walk of a list of trees only adds to what is bound.
pub proof fn lemma_walk_bound_children_grows<A>(cs: Seq<ExprView<A>>, n: nat, bound: Set<SymbolView>)
    ensures
        bound.subset_of(ExprView::walk_bound_children(cs, n, bound)),
    decreases cs, n,
{
    if n > 0 && n <= cs.len() {
        lemma_walk_bound_children_grows(cs, (n - 1) as nat, bound);
        lemma_walk_bound(cs[n - 1], ExprView::walk_bound_children(cs, (n - 1) as nat, bound));
    }
}

/// A walk only adds to what is bound (for use where the tree is an element
/// of a list).
proof fn lemma_walk_bound<A>(e: ExprView<A>, bound: Set<SymbolView>)
    ensures
        bound.subset_of(e.walk_bound(bound)),
    decreases e, 2nat,
{
    lemma_walk_bound_grows(e, bound);
}

/// In a tree whose identifiers all stand in the scope of a binder of their
/// symbol, or name one of `bound`, every identifier is defined when a walk
/// that began with at least `bound` comes to it.
pub proof fn lemma_closed_is_defined<A>(e: ExprView<A>, bound: Set<SymbolView>, seen: Set<SymbolView>)
    requires
        e.closed_under(bound),
        bound.subset_of(seen),
    ensures
        e.walk_defined(seen),
    decreases e, 1nat,
{
    lemma_closed_children_defined(e, bound, seen, e.children.len());
}

/// The same for the first `n` children of the tree.
proof fn lemma_closed_children_defined<A>(e: ExprView<A>, bound: Set<SymbolView>, seen: Set<SymbolView>, n: nat)
    requires
        e.closed_under(bound),
        bound.subset_of(seen),
        n <= e.children.len(),
    ensures
        ExprView::walk_defined_children(e.children, n, e.head.binds_into(seen)),
    decreases e, 0nat, n,
{
    if n > 0 {
        lemma_closed_children_defined(e, bound, seen, (n - 1) as nat);
        let start = e.head.binds_into(seen);
        let here = ExprView::walk_bound_children(e.children, (n - 1) as nat, start);
        let scope = e.head.scope_of_child(n - 1, bound);
        lemma_walk_bound_children_grows(e.children, (n - 1) as nat, start);
        match e.head {
            Head::Lambda(ps) => {
                lemma_with_params_grows(ps, ps.len(), bound, seen);
            },
            _ => {},
        }
        assert(scope.subset_of(start));
        assert(scope.subset_of(here));
        assert(e.children[n - 1].closed_under(scope));
        lemma_closed_is_defined(e.children[n - 1], scope, here);
    }
}

/// What the comparison of a tree with one of its renamings gives, if the
/// float constants of the tree are numbers: `Equal` if every identifier is
/// defined when the walk comes to it, and `Undefined` if one is not. It is
/// never `NotEqual`. The renaming `rho` gives each symbol the symbol that
/// takes its place, such as the one with the next number.
pub proof fn lemma_compare_renamed<A>(e: ExprView<A>, rho: Renaming)
    requires
        e.numbers_only(),
    ensures
        e.compare(e.rename(rho)) == (if e.walk_defined(Set::empty()) {
            Outcome::Equal
        } else {
            Outcome::Undefined
        }),
{
    let m = Map::<SymbolView, SymbolView>::empty();
    assert(m.dom() =~= Set::empty());
    lemma_rename_corresponds(e, rho);
    lemma_rename_agrees(e, rho);
    lemma_compare_walk(e, e.rename(rho), rho, m);
}

/// A closed tree whose float constants are numbers is equal to itself.
pub proof fn lemma_compare_reflexive<A>(e: ExprView<A>)
    requires
        e.closed(),
        e.numbers_only(),
    ensures
        e.compare(e) == Outcome::Equal,
{
    lemma_rename_identity(e);
    lemma_compare_closed_renamed(e, |s: SymbolView| s);
}

/// A closed tree whose float constants are numbers is equal to each of its
/// renamings.
pub proof fn lemma_compare_closed_renamed<A>(e: ExprView<A>, rho: Renaming)
    requires
        e.closed(),
        e.numbers_only(),
    ensures
        e.compare(e.rename(rho)) == Outcome::Equal,
{
    lemma_closed_is_defined(e, Set::empty(), Set::empty());
    lemma_compare_renamed(e, rho);
}

/// A closed tree and a tree that is the same but for the values of
/// constants and the kinds of binary operators are `Equal` if those agree
/// and `NotEqual` if they do not; the comparison is never `Undefined`. The
/// other tree may be renamed on top.
pub proof fn lemma_compare_constants<A>(e: ExprView<A>, o: ExprView<A>, rho: Renaming)
    requires
        e.closed(),
        e.corresponds(o, rho),
    ensures
        e.compare(o) == equal_if(e.agrees(o)),
        !e.agrees(o) ==> e.compare(o) == Outcome::NotEqual,
{
    let m = Map::<SymbolView, SymbolView>::empty();
    assert(m.dom() =~= Set::empty());
    lemma_closed_is_defined(e, Set::empty(), m.dom());
    lemma_compare_walk(e, o, rho, m);
}

/// A tree with an identifier that no binder before it in the walk has
/// introduced is `Undefined` against itself and against each of its
/// renamings, if its float constants are numbers. Such a tree is not
/// closed.
pub proof fn lemma_compare_undefined<A>(e: ExprView<A>, rho: Renaming)
    requires
        !e.walk_defined(Set::empty()),
        e.numbers_only(),
    ensures
        e.compare(e.rename(rho)) == Outcome::Undefined,
        e.compare(e) == Outcome::Undefined,
        !e.closed(),
{
    lemma_compare_renamed(e, rho);
    lemma_rename_identity(e);
    lemma_compare_renamed(e, |s: SymbolView| s);
    if e.closed() {
        lemma_closed_is_defined(e, Set::empty(), Set::empty());
    }
}

} // verus!
