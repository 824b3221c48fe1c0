//! Incremental clause compiler and code-patching core of a WAM-based
//! logic-programming engine.
//!
//! Given pre-generated instruction blocks for the clauses of a predicate,
//! this library maintains an append-only code vector together with a family
//! of choice-threading instructions and first-argument indexing tables, so
//! that at any moment the vector represents the current definition of every
//! predicate with correct backtracking semantics.  Clauses are added with
//! `assertz`/`asserta` semantics and removed with `retract` semantics by
//! surgical, journalled edits on the live instruction vector; the journal
//! allows a failed load to be rolled back.

pub mod chains;
pub mod compile;
pub mod indexing;
pub mod instructions;
pub mod journal;
pub mod laws;
pub mod loader;
pub mod locs;
pub mod machine;
pub mod skeleton;
pub mod walk;
