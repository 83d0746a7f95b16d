//! Arena-indexed intermediate representation for a columnar query engine:
//! expression and plan node models, the lowering pass from the user-facing
//! expression tree into the arena, and the generic extraction/reconstruction
//! primitives that optimizer passes use to rewrite plan nodes.

pub mod aexpr;
pub mod arena;
pub mod dtypes;
pub mod error;
pub mod expr;
pub mod inputs;
pub mod ir;
pub mod lower;
pub mod options;

pub use arena::{Arena, Node};
