//! The type-system core of a static checker for a dynamically-typed
//! scripting language: a lattice of structural types with literal sets,
//! table shapes, slot mutability flavors, and type variables with
//! monotone bounds, together with the workspace configuration helpers
//! that surround it.

pub mod algebra;
pub mod clone_impls;
pub mod context;
pub mod dehumanize;
pub mod eq;
pub mod flags;
pub mod join;
pub mod kind;
pub mod lattice;
pub mod laws;
pub mod measure;
pub mod model;
pub mod report;
pub mod strutil;
pub mod tag;
pub mod value;
pub mod wf;
pub mod template;
