//! Typed, recoverable errors surfaced by lowering and related passes.
//!
//! Every failure in this crate is a value of [`IrError`]; nothing here
//! aborts the caller's process. Each variant carries the data a caller
//! needs to report the failure (for instance the name of a missing
//! struct field), and [`IrError::kind`] sorts the variants into the
//! coarse error classes the engine exposes.

use vstd::prelude::*;

verus! {

/// Coarse classification of an [`IrError`].
#[derive(Clone, Copy, PartialEq, Eq, Structural, Debug)]
pub enum ErrorKind {
    /// Context misuse: an operation that is not valid where it appears.
    InvalidOperation,
    /// A semantic violation discovered while resolving types or names.
    ComputeError,
}

/// A failure produced while lowering an expression tree into the arena.
#[derive(PartialEq, Eq, Debug)]
pub enum IrError {
    /// An expression kind that must have been expanded away before
    /// lowering (a sub-plan or an unexpanded selector) was encountered.
    ExprKindNotAllowed,
    /// A keep-name wrapper found no column or struct-field access in
    /// the subtree it was applied to.
    KeepNameWithoutColumn,
    /// A whole-list evaluation referred to a column with a non-empty
    /// name; only the empty placeholder column may be referenced there.
    NamedColumnInListEval(String),
    /// A cumulative evaluation lowered to a node that does not return
    /// a scalar.
    NonScalarCumulativeEval,
    /// A struct-field access appeared outside any struct context.
    FieldOutsideStructContext,
    /// A struct-field access named a field the active struct context
    /// does not have; carries the missing field name.
    FieldDoesNotExist(String),
    /// A user-defined function could not be resolved against the
    /// schema; carries the column name the function requires.
    UdfColumnNotFound(String),
    /// Type inference met a column reference that the schema does not
    /// contain; carries the column name.
    ColumnNotFound(String),
    /// A whole-list evaluation was applied to an expression whose type
    /// is not a list; carries the offending type.
    EvalNotAList(crate::dtypes::DataType),
    /// Type inference met a node whose output type this pass does not
    /// determine.
    CannotInferType,
}

impl IrError {
    /// The class this error belongs to.
    pub open spec fn kind_spec(&self) -> ErrorKind {
        match self {
            IrError::UdfColumnNotFound(_) => ErrorKind::ComputeError,
            IrError::ColumnNotFound(_) => ErrorKind::ComputeError,
            IrError::CannotInferType => ErrorKind::ComputeError,
            _ => ErrorKind::InvalidOperation,
        }
    }

    /// Sorts this error into the engine's coarse error classes.
    pub fn kind(&self) -> (result: ErrorKind)
        ensures
            result == self.kind_spec(),
    {
        match self {
            IrError::UdfColumnNotFound(_) => ErrorKind::ComputeError,
            IrError::ColumnNotFound(_) => ErrorKind::ComputeError,
            IrError::CannotInferType => ErrorKind::ComputeError,
            _ => ErrorKind::InvalidOperation,
        }
    }
}

} // verus!
