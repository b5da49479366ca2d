//! Structural generator of the `conditionally_select` implementation for a
//! record type: every field of the result is selected independently, through
//! the selection primitive of the field's element type.

pub mod descriptor;
pub mod classify;
pub mod naming;
pub mod generics;
pub mod generated;
pub mod assemble;
pub mod semantics;
pub mod render;
