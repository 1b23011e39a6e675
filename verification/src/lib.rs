//! Verified utilities for working with a wiki document tree: a compiled
//! registry of template specifications, a recursive predicate engine with a
//! library of structural rules, a template matcher, and two tree rewrites
//! (list-template canonicalization and math-formula normalization).

pub mod ast;
pub mod strutil;
pub mod util;
pub mod registry;
pub mod matcher;
pub mod predicates;
pub mod transformations;
