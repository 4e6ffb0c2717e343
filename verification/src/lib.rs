//! Middle-end of a compiler for a small stack-based concatenative language.
//!
//! The pipeline works over one flat instruction array: the preprocessor
//! substitutes `here` literals, inlines included files, collects and expands
//! macros to a fixpoint; the control-flow resolver backpatches every jump
//! slot in a single forward pass; the stack-effect typechecker abstractly
//! executes the resolved array and checks that every control-flow join is
//! reached with the same symbolic stack shape.
//!
//! Each pass is mirrored by a spec-level model, so the executable
//! functions' contracts pin their results exactly, and the structural laws
//! of the pipeline (jump-target validity, idempotence of re-resolution,
//! stack-neutrality of loop conditions, branch convergence, the bounded
//! expansion fixpoint) are stated and proved of the same models.

pub mod codegen;
pub mod error;
pub mod instruction;
pub mod preprocessor;
pub mod resolver;
pub mod typecheck;
