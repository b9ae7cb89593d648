//! A structural-mapping ("functor") library.
//!
//! The crate has two halves.
//!
//! The `functor` modules define the runtime mapping protocol: a family of
//! traits whose `fmap`/`try_fmap` operations apply a user function to every
//! occurrence of one chosen type parameter inside a container, preserving the
//! container's shape, together with verified implementations for the standard
//! containers.
//!
//! The remaining modules form the code-synthesis core that backs the derive
//! surface: a model of type expressions and type declarations, a containment
//! analyzer, a per-field mapping-expression synthesizer, an aggregate
//! assembler, and a declaration planner.  The synthesized artifacts are plain
//! data; rendering them into host-language tokens is left to an unverified
//! front end.
pub mod ast;
pub mod contains;
pub mod functor;
pub mod synth;
pub mod assemble;
pub mod subst;
pub mod plan;
pub mod eval;
pub mod semantics;
pub mod impl_core;
pub mod impl_alloc;
pub mod impl_std;
