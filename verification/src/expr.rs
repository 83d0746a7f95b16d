//! The user-facing, recursively-owned expression tree.
//!
//! A client builds values of [`Expr`]; the lowering pass walks the
//! tree once and converts it into arena-allocated expression nodes.
//! Literals with an undetermined numeric type stay deferred
//! ([`LiteralValue::Dyn`]) until a materializing context pins them to
//! a concrete type.

use vstd::prelude::*;

use crate::dtypes::DataType;
use crate::options::{FunctionOptions, SortMultipleOptions, SortOptions};

verus! {

/// Binary operators usable inside an expression.
#[derive(Clone, Copy, PartialEq, Eq, Structural, Debug, Hash)]
pub enum Operator {
    Eq,
    NotEq,
    Lt,
    LtEq,
    Gt,
    GtEq,
    Plus,
    Minus,
    Multiply,
    Divide,
    Modulus,
    And,
    Or,
}

impl Operator {
    /// Whether the operator yields a boolean whatever its inputs.
    pub open spec fn is_comparison_spec(&self) -> bool {
        match self {
            Operator::Eq | Operator::NotEq | Operator::Lt | Operator::LtEq | Operator::Gt
                | Operator::GtEq | Operator::And | Operator::Or => true,
            _ => false,
        }
    }

    /// Executable form of [`Operator::is_comparison_spec`].
    pub fn is_comparison(&self) -> (result: bool)
        ensures
            result == self.is_comparison_spec(),
    {
        match self {
            Operator::Eq | Operator::NotEq | Operator::Lt | Operator::LtEq | Operator::Gt
                | Operator::GtEq | Operator::And | Operator::Or => true,
            _ => false,
        }
    }
}

/// How strictly a cast treats values the target type cannot hold.
#[derive(Clone, Copy, PartialEq, Eq, Structural, Debug, Hash)]
pub enum CastOptions {
    /// Out-of-range values become null.
    NonStrict,
    /// Out-of-range values raise an error.
    Strict,
    /// Integer casts wrap.
    Overflowing,
}

/// A numeric literal whose concrete type is not determined yet.
#[derive(Clone, Copy, PartialEq, Eq, Structural, Debug, Hash)]
pub enum DynLiteralValue {
    /// An integer of undetermined width.
    Int(i64),
}

/// A literal value: either concrete, or deferred ([`Self::Dyn`]).
#[derive(Clone, PartialEq, Eq, Debug)]
pub enum LiteralValue {
    Null,
    Boolean(bool),
    Int32(i32),
    Int64(i64),
    UInt32(u32),
    Str(String),
    /// A literal whose concrete type is resolved lazily.
    Dyn(DynLiteralValue),
}

/// The concrete literal a deferred literal materializes to: the
/// narrowest integer type that holds the value. Concrete literals
/// materialize to themselves, which makes materialization idempotent.
pub open spec fn materialize_spec(lv: LiteralValue) -> LiteralValue {
    match lv {
        LiteralValue::Dyn(DynLiteralValue::Int(v)) => if i32::MIN <= v <= i32::MAX {
            LiteralValue::Int32(v as i32)
        } else {
            LiteralValue::Int64(v)
        },
        other => other,
    }
}

/// The data type of a literal; deferred literals have an unknown type.
pub open spec fn literal_dtype_spec(lv: LiteralValue) -> DataType {
    match lv {
        LiteralValue::Null => DataType::Null,
        LiteralValue::Boolean(_) => DataType::Boolean,
        LiteralValue::Int32(_) => DataType::Int32,
        LiteralValue::Int64(_) => DataType::Int64,
        LiteralValue::UInt32(_) => DataType::UInt32,
        LiteralValue::Str(_) => DataType::Utf8,
        LiteralValue::Dyn(DynLiteralValue::Int(_)) => DataType::Unknown(
            crate::dtypes::UnknownKind::Int,
        ),
    }
}

impl LiteralValue {
    /// Whether the concrete type of this literal is still undetermined.
    pub open spec fn is_deferred(&self) -> bool {
        self matches LiteralValue::Dyn(_)
    }

    /// Resolves a deferred literal to a concrete type; concrete
    /// literals are returned unchanged.
    pub fn materialize(self) -> (result: LiteralValue)
        ensures
            result == materialize_spec(self),
    {
        match self {
            LiteralValue::Dyn(DynLiteralValue::Int(v)) => {
                if i32::MIN as i64 <= v && v <= i32::MAX as i64 {
                    LiteralValue::Int32(v as i32)
                } else {
                    LiteralValue::Int64(v)
                }
            },
            other => other,
        }
    }

    /// The data type of this literal.
    pub fn dtype(&self) -> (result: DataType)
        ensures
            result == literal_dtype_spec(*self),
    {
        match self {
            LiteralValue::Null => DataType::Null,
            LiteralValue::Boolean(_) => DataType::Boolean,
            LiteralValue::Int32(_) => DataType::Int32,
            LiteralValue::Int64(_) => DataType::Int64,
            LiteralValue::UInt32(_) => DataType::UInt32,
            LiteralValue::Str(_) => DataType::Utf8,
            LiteralValue::Dyn(DynLiteralValue::Int(_)) => DataType::Unknown(
                crate::dtypes::UnknownKind::Int,
            ),
        }
    }

    /// The output column name every literal carries.
    pub fn output_column_name(&self) -> (result: String)
        ensures
            result@ == literal_output_name(),
    {
        String::from_str("literal")
    }
}

/// The fixed output name of a literal expression.
pub open spec fn literal_output_name() -> Seq<char> {
    "literal"@
}

/// The fixed, reserved output name of a length expression.
pub open spec fn len_output_name() -> Seq<char> {
    "len"@
}

/// Materialization is idempotent: resolving an already-resolved
/// literal changes nothing.
pub proof fn lemma_materialize_idempotent(lv: LiteralValue)
    ensures
        materialize_spec(materialize_spec(lv)) == materialize_spec(lv),
{
}

/// Materialization always yields a concrete literal.
pub proof fn lemma_materialize_concrete(lv: LiteralValue)
    ensures
        !materialize_spec(lv).is_deferred(),
{
}

/// An aggregation over a single input expression.
#[derive(PartialEq, Eq, Debug)]
pub enum AggExpr {
    Min { input: Box<Expr>, propagate_nans: bool },
    Max { input: Box<Expr>, propagate_nans: bool },
    Median(Box<Expr>),
    NUnique(Box<Expr>),
    First(Box<Expr>),
    Last(Box<Expr>),
    Mean(Box<Expr>),
    Implode(Box<Expr>),
    /// Count of values; optionally counting nulls too.
    Count(Box<Expr>, bool),
    Quantile { expr: Box<Expr>, quantile: Box<Expr>, method: QuantileMethod },
    Sum(Box<Expr>),
    /// Standard deviation with the given degrees-of-freedom delta.
    Std(Box<Expr>, u8),
    /// Variance with the given degrees-of-freedom delta.
    Var(Box<Expr>, u8),
    AggGroups(Box<Expr>),
}

/// How a quantile is interpolated from the sorted values.
#[derive(Clone, Copy, PartialEq, Eq, Structural, Debug, Hash)]
pub enum QuantileMethod {
    Nearest,
    Lower,
    Higher,
    Midpoint,
    Linear,
}

/// The two kinds of element-wise evaluation over nested values.
#[derive(Clone, Copy, PartialEq, Eq, Structural, Debug, Hash)]
pub enum EvalVariant {
    /// Evaluate the inner expression over every list element.
    List,
    /// Evaluate the inner expression over growing prefixes; the inner
    /// expression must return a scalar.
    Cumulative { min_samples: usize },
}

/// The element type an evaluation runs over, given the type of the
/// evaluated expression: the inner type of a list for whole-list
/// evaluation (no other type has one), the type itself for
/// cumulative evaluation.
pub open spec fn element_dtype_spec(variant: EvalVariant, dtype: DataType) -> Option<DataType> {
    match variant {
        EvalVariant::List => match dtype {
            DataType::List(inner) => Some(*inner),
            _ => None,
        },
        EvalVariant::Cumulative { .. } => Some(dtype),
    }
}

impl EvalVariant {
    /// The element type an evaluation of this kind runs over, or the
    /// offending type when a whole-list evaluation is applied to a
    /// non-list.
    pub fn element_dtype(&self, dtype: DataType) -> (result: Result<
        DataType,
        crate::error::IrError,
    >)
        ensures
            match result {
                Ok(dt) => element_dtype_spec(*self, dtype) == Some(dt),
                Err(er) => element_dtype_spec(*self, dtype) is None && er
                    == crate::error::IrError::EvalNotAList(dtype),
            },
    {
        match self {
            EvalVariant::List => match dtype {
                DataType::List(inner) => Ok(*inner),
                other => Err(crate::error::IrError::EvalNotAList(other)),
            },
            EvalVariant::Cumulative { .. } => Ok(dtype),
        }
    }
}

/// How a window function maps group results back to rows.
#[derive(Clone, Copy, PartialEq, Eq, Structural, Debug, Hash)]
pub enum WindowMapping {
    /// Aggregations broadcast back over their group's rows.
    GroupsToRows,
    /// Explode the group results.
    Explode,
    /// Join the group results back as a list.
    Join,
}

/// The kind of window a window expression runs over.
#[derive(Clone, Copy, PartialEq, Eq, Structural, Debug, Hash)]
pub enum WindowType {
    /// A partition-by window.
    Over(WindowMapping),
}

/// An opaque user-defined function, compared by identity.
///
/// Resolution against a schema succeeds when the column the function
/// declares it needs (if any) exists there.
#[derive(Clone, PartialEq, Eq, Debug)]
pub struct OpaqueUdf {
    /// Identity of the function.
    pub id: u64,
    /// A column the function requires the schema to have.
    pub required_column: Option<String>,
}

/// A deferred output-type declaration of a user-defined function.
///
/// Resolution against a schema succeeds when the column it declares
/// it needs (if any) exists there; the output type is then `dtype`.
#[derive(PartialEq, Eq, Debug)]
pub struct DtypeUdf {
    /// A column the declaration requires the schema to have.
    pub required_column: Option<String>,
    /// The declared output type.
    pub dtype: DataType,
}

/// A pure name-to-name transform applied by a rename-alias wrapper.
#[derive(Clone, PartialEq, Eq, Debug)]
pub enum NameTransform {
    /// Prepend the given text.
    Prefix(String),
    /// Append the given text.
    Suffix(String),
}

/// The name `transform` produces from `name`.
pub open spec fn apply_transform_spec(transform: NameTransform, name: Seq<char>) -> Seq<char> {
    match transform {
        NameTransform::Prefix(p) => p@ + name,
        NameTransform::Suffix(s) => name + s@,
    }
}

impl NameTransform {
    /// Applies the transform to a name.
    pub fn apply(&self, name: &String) -> (result: String)
        ensures
            result@ == apply_transform_spec(*self, name@),
    {
        match self {
            NameTransform::Prefix(p) => {
                let mut out = p.clone();
                out.append(name.as_str());
                out
            },
            NameTransform::Suffix(s) => {
                let mut out = name.clone();
                out.append(s.as_str());
                out
            },
        }
    }
}

/// A named function with a statically known meaning.
#[derive(PartialEq, Eq, Debug)]
pub enum FunctionExpr {
    /// Operations on struct columns.
    StructExpr(StructFunction),
}

/// Struct-column operations.
#[derive(PartialEq, Eq, Debug)]
pub enum StructFunction {
    /// Select one field of a struct by name.
    FieldByName(String),
}

/// The display string of a named function, used as its output name
/// when it is called with no inputs.
pub open spec fn function_display_spec(f: FunctionExpr) -> Seq<char> {
    match f {
        FunctionExpr::StructExpr(StructFunction::FieldByName(_)) => "struct.field_by_name"@,
    }
}

impl FunctionExpr {
    /// The display string, used as the output name of a call with no
    /// inputs.
    pub fn display_name(&self) -> (result: String)
        ensures
            result@ == function_display_spec(*self),
    {
        match self {
            FunctionExpr::StructExpr(StructFunction::FieldByName(_)) => String::from_str(
                "struct.field_by_name",
            ),
        }
    }

    /// The behavioural options of this function: struct-field access
    /// is element-wise.
    pub fn function_options(&self) -> (result: FunctionOptions)
        ensures
            result.check_lengths.0 == true,
            result.flags.bits == crate::options::ROW_SEPARABLE
                | crate::options::LENGTH_PRESERVING,
            result.cast_options is None,
    {
        match self {
            FunctionExpr::StructExpr(StructFunction::FieldByName(_)) => {
                FunctionOptions::elementwise()
            },
        }
    }
}

/// One node of the user-facing expression tree.
#[derive(PartialEq, Eq, Debug)]
pub enum Expr {
    /// Renames the propagated output name; wraps no new node.
    Alias(Box<Expr>, String),
    /// A column reference; its name is its output name.
    Column(String),
    /// A literal value.
    Literal(LiteralValue),
    /// A binary operation; the output name comes from the left side.
    BinaryExpr { left: Box<Expr>, op: Operator, right: Box<Expr> },
    /// A cast to a concrete type.
    Cast { expr: Box<Expr>, dtype: DataType, options: CastOptions },
    /// Sorts the input expression.
    Sort { expr: Box<Expr>, options: SortOptions },
    /// Takes values at the given indices.
    Gather { expr: Box<Expr>, idx: Box<Expr>, returns_scalar: bool },
    /// Sorts `expr` by a list of key expressions.
    SortBy { expr: Box<Expr>, by: Vec<Expr>, sort_options: SortMultipleOptions },
    /// An aggregation; its input is always materialized eagerly.
    Agg(AggExpr),
    /// If-then-else; the output name comes from the `truthy` branch.
    Ternary { predicate: Box<Expr>, truthy: Box<Expr>, falsy: Box<Expr> },
    /// A named function call.
    Function { input: Vec<Expr>, function: FunctionExpr },
    /// Explodes nested values into rows.
    Explode { input: Box<Expr>, skip_empty: bool },
    /// Filters the input by a boolean expression.
    Filter { input: Box<Expr>, by: Box<Expr> },
    /// A window function over partitions.
    Window {
        function: Box<Expr>,
        partition_by: Vec<Expr>,
        order_by: Option<(Box<Expr>, SortOptions)>,
        options: WindowType,
    },
    /// A slice by offset and length expressions.
    Slice { input: Box<Expr>, offset: Box<Expr>, length: Box<Expr> },
    /// Element-wise evaluation over nested values.
    Eval { expr: Box<Expr>, evaluation: Box<Expr>, variant: EvalVariant },
    /// The length of the frame; has a fixed reserved output name.
    Len,
    /// An anonymous function call with deferred function and output
    /// type, both resolved against the schema during lowering.
    AnonymousFunction {
        input: Vec<Expr>,
        function: OpaqueUdf,
        output_type: DtypeUdf,
        options: FunctionOptions,
        fmt_str: String,
    },
    /// A nested sub-plan; must have been expanded before lowering.
    SubPlan,
    /// An unexpanded selector; must have been expanded before lowering.
    Selector,
    /// Keeps the name of the first column found in the lowered subtree.
    KeepName(Box<Expr>),
    /// Applies a pure transform to the propagated output name.
    RenameAlias { expr: Box<Expr>, function: NameTransform },
    /// Accesses a field of the enclosing struct scope by name.
    Field(String),
}

} // verus!
