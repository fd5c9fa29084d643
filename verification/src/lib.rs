//! A small interpreter for a toy imperative scripting language.
//!
//! The crate models the language in three layers: a generic parse tree
//! (`ptree`) whose nodes are tagged by grammar rules, the typed abstract
//! syntax tree (`ast`) built from it by `builder`, and a tree-walking
//! evaluator (`eval`) that runs the syntax tree against a mutable variable
//! scope.  The meaning of evaluation is fixed by a spec-level interpreter
//! (`semantics`) that every evaluation function is proved to follow.
//! Runtime values carry 64-bit signed integers as their numeric type;
//! arithmetic saturates at the type's bounds.

pub mod ast;
pub mod builder;
pub mod eval;
pub mod num;
pub mod ptree;
pub mod scope;
pub mod semantics;
pub mod text;
pub mod value;

pub use ast::{
    Atomic, BinaryOp, Cast, Comparison, Conditional, ConditionalExpression, Expression, LogicOp,
    Loop, Statement, Token, VariableAssignment,
};
pub use ptree::{ParseNode, Rule, UBPP};
