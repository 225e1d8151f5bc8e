//! The expression tree of a data-parallel intermediate representation, with
//! the tree algorithms that later passes build on: child enumeration,
//! pre-order traversal, in-place rewriting, scoped substitution and comparison
//! up to the names of bound symbols.
//!
//! Every function comes with a contract over the model of the tree
//! ([`model::ExprView`]): an annotation, a head and the children in their
//! canonical order. The model of an expression `e` is written `e@`.
//!
//! - [`ast`]: symbols, types and expressions, and their models
//! - [`children`], [`children_mut`]: the children of a node
//! - [`traverse`]: the walk in pre-order, plain and with a state
//! - [`transform`]: rewriting in place
//! - [`substitute`], [`scope`]: substitution for the free occurrences of a
//!   symbol, and what it does to them
//! - [`compare`], [`alpha`]: comparison up to the names of bound symbols, and
//!   what it gives for renamed trees
//! - [`equal`], [`clone`], [`text`], [`error`]: equality, copies, how symbols
//!   and operators are written, and the failure of a comparison

pub mod alpha;
pub mod ast;
pub mod children;
pub mod children_mut;
pub mod clone;
pub mod compare;
pub mod equal;
pub mod error;
pub mod model;
pub mod scope;
pub mod substitute;
pub mod text;
pub mod transform;
pub mod traverse;
