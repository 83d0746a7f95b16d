//! Arena-allocated plan nodes: one relational-algebra operator each.
//!
//! Every variant of [`IR`] refers to its child plans by [`Node`]
//! handle into the plan arena and wraps every expression it owns in an
//! [`ExprIR`]. Non-tree metadata (schemas, per-node options) is shared
//! behind `Arc` so that rewriting a node never copies it.

use std::sync::Arc;
use vstd::prelude::*;

use crate::aexpr::{AExpr, ExprIR};
use crate::arena::{Arena, Node};
use crate::dtypes::Schema;
use crate::options::{DistinctOptionsIR, ProjectionOptions, SortMultipleOptions};

verus! {

/// Shared, immutable schema handle.
pub type SchemaRef = Arc<Schema>;

/// Relies on `Arc::clone` of std: the returned handle refers to the
/// same allocation, so as a value it equals its source.
#[verifier::external_body]
pub(crate) fn clone_arc<T>(a: &Arc<T>) -> (result: Arc<T>)
    ensures
        result == *a,
{
    Arc::clone(a)
}

/// The external sources a scan reads, shared behind one handle.
#[derive(PartialEq, Eq, Debug)]
pub struct ScanSources {
    /// Paths of the files to scan.
    pub paths: Arc<Vec<String>>,
}

impl ScanSources {
    /// Copy sharing the same path list.
    pub fn duplicate(&self) -> (result: ScanSources)
        ensures
            result == *self,
    {
        ScanSources { paths: clone_arc(&self.paths) }
    }
}

/// What a scan knows about the file it will read.
#[derive(PartialEq, Eq, Debug)]
pub struct FileInfo {
    /// The schema of the file's contents.
    pub schema: SchemaRef,
}

impl FileInfo {
    /// Copy sharing the same schema.
    pub fn duplicate(&self) -> (result: FileInfo)
        ensures
            result == *self,
    {
        FileInfo { schema: clone_arc(&self.schema) }
    }
}

/// The file format a scan decodes.
#[derive(Clone, Copy, PartialEq, Eq, Structural, Debug, Hash)]
pub enum FileScanIR {
    Csv,
    Parquet,
    Ipc,
    NDJson,
}

/// Options common to every file format.
#[derive(Clone, Copy, PartialEq, Eq, Structural, Debug, Hash)]
pub struct UnifiedScanArgs {
    /// Re-chunk the data after the scan.
    pub rechunk: bool,
    /// Add a column holding each row's source path.
    pub include_file_paths: bool,
}

/// An in-memory frame a scan can read without I/O: the model keeps
/// what plan rewriting observes, its schema and height.
#[derive(PartialEq, Eq, Debug)]
pub struct DataFrame {
    /// The frame's schema.
    pub schema: Schema,
    /// Number of rows.
    pub height: usize,
}

/// Options of a group-by plan node.
#[derive(Clone, Copy, PartialEq, Eq, Debug, Hash)]
pub struct GroupbyOptions {
    /// Keep only this slice of the grouped result.
    pub slice: Option<(i64, usize)>,
}

/// The join strategies.
#[derive(Clone, Copy, PartialEq, Eq, Structural, Debug, Hash)]
pub enum JoinType {
    Inner,
    Left,
    Right,
    Full,
    Cross,
    Semi,
    Anti,
}

/// Options of a join plan node.
#[derive(PartialEq, Eq, Debug)]
pub struct JoinOptionsIR {
    /// The join strategy.
    pub how: JoinType,
    /// Suffix appended to right-hand column names that collide.
    pub suffix: String,
    /// Whether null keys compare equal.
    pub nulls_equal: bool,
}

/// Options of an n-ary union node.
#[derive(Clone, Copy, PartialEq, Eq, Debug, Hash)]
pub struct UnionOptions {
    /// Run the inputs in parallel.
    pub parallel: bool,
    /// Keep the order of the inputs in the output.
    pub maintain_order: bool,
    /// Keep only this slice of the result.
    pub slice: Option<(i64, usize)>,
}

/// Options of a horizontal concatenation node.
#[derive(Clone, Copy, PartialEq, Eq, Structural, Debug, Hash)]
pub struct HConcatOptions {
    /// Run the inputs in parallel.
    pub parallel: bool,
}

/// An opaque frame-to-frame function applied by a map node.
#[derive(Clone, Copy, PartialEq, Eq, Structural, Debug, Hash)]
pub enum FunctionIR {
    /// Re-chunk the frame's memory.
    Rechunk,
    /// Count rows.
    Count,
    /// A user-supplied function, compared by identity.
    Opaque(u64),
}

/// One sort key of a partitioned sink, with its direction.
#[derive(PartialEq, Eq, Debug)]
pub struct SortColumnIR {
    /// The key expression.
    pub expr: ExprIR,
    pub descending: bool,
    pub nulls_last: bool,
}

impl SortColumnIR {
    /// Structure-preserving copy, equal to `self` in every field.
    pub fn duplicate(&self) -> (result: SortColumnIR)
        ensures
            result == *self,
    {
        SortColumnIR {
            expr: self.expr.duplicate(),
            descending: self.descending,
            nulls_last: self.nulls_last,
        }
    }
}

/// How a partitioned sink splits its input.
#[derive(PartialEq, Eq, Debug)]
pub enum PartitionVariantIR {
    /// Split after a maximum number of rows.
    MaxSize(u64),
    /// The input is already parted by the key expressions.
    Parted { key_exprs: Vec<ExprIR>, include_key: bool },
    /// Split by the value of the key expressions.
    ByKey { key_exprs: Vec<ExprIR>, include_key: bool },
}

/// A partitioned sink: base path, splitting rule, and an optional
/// per-partition sort.
#[derive(PartialEq, Eq, Debug)]
pub struct PartitionSinkIR {
    /// Directory the partitions are written under.
    pub base_path: Arc<String>,
    /// How the input is split.
    pub variant: PartitionVariantIR,
    /// Sort applied inside each partition before writing.
    pub per_partition_sort_by: Option<Vec<SortColumnIR>>,
}

/// Where a sink writes its input.
#[derive(PartialEq, Eq, Debug)]
pub enum SinkTypeIR {
    /// Keep the result in memory.
    Memory,
    /// Write one file at the given path.
    File(Arc<String>),
    /// Write one file per partition.
    Partition(PartitionSinkIR),
}

/// One relational-algebra operator of a lowered query plan.
#[derive(PartialEq, Eq, Debug)]
pub enum IR {
    /// Keep `len` rows starting at `offset`.
    Slice { input: Node, offset: i64, len: usize },
    /// Keep the rows the predicate selects.
    Filter { input: Node, predicate: ExprIR },
    /// Read from an external source.
    Scan {
        sources: ScanSources,
        file_info: FileInfo,
        /// Optional pushed-down predicate.
        predicate: Option<ExprIR>,
        /// Schema of the projected file, when a projection applies.
        output_schema: Option<SchemaRef>,
        /// The file format.
        scan_type: FileScanIR,
        /// Options common to every file format.
        unified_scan_args: UnifiedScanArgs,
    },
    /// Read an in-memory frame.
    DataFrameScan { df: Arc<DataFrame>, schema: SchemaRef, output_schema: Option<SchemaRef> },
    /// Select columns by name only; no expression evaluation.
    SimpleProjection { input: Node, columns: SchemaRef },
    /// General projection: evaluate expressions over the input.
    Select { input: Node, expr: Vec<ExprIR>, schema: SchemaRef, options: ProjectionOptions },
    /// Sort by a list of key expressions.
    Sort {
        input: Node,
        by_column: Vec<ExprIR>,
        /// Keep only this slice of the sorted result.
        slice: Option<(i64, usize)>,
        sort_options: SortMultipleOptions,
    },
    /// Cache a subplan, keyed by a unique subtree identity.
    Cache { input: Node, id: u64, cache_hits: u32 },
    /// Group by key expressions and aggregate.
    GroupBy {
        input: Node,
        keys: Vec<ExprIR>,
        aggs: Vec<ExprIR>,
        schema: SchemaRef,
        maintain_order: bool,
        options: Arc<GroupbyOptions>,
        /// A user-defined function applied per group, by identity.
        apply: Option<u64>,
    },
    /// Join two inputs on key expressions.
    Join {
        input_left: Node,
        input_right: Node,
        schema: SchemaRef,
        left_on: Vec<ExprIR>,
        right_on: Vec<ExprIR>,
        options: Arc<JoinOptionsIR>,
    },
    /// Add columns to the input (horizontal stack).
    HStack { input: Node, exprs: Vec<ExprIR>, schema: SchemaRef, options: ProjectionOptions },
    /// Drop duplicate rows.
    Distinct { input: Node, options: DistinctOptionsIR },
    /// Apply an opaque frame-to-frame function.
    MapFunction { input: Node, function: FunctionIR },
    /// Concatenate inputs vertically.
    Union { inputs: Vec<Node>, options: UnionOptions },
    /// Concatenate inputs horizontally; output names are unique.
    HConcat { inputs: Vec<Node>, schema: SchemaRef, options: HConcatOptions },
    /// Bring extra frames into scope for expression evaluation.
    ExtContext { input: Node, contexts: Vec<Node>, schema: SchemaRef },
    /// Write the input to one target.
    Sink { input: Node, payload: SinkTypeIR },
    /// Fan the plan out into several sinks run together.
    SinkMultiple { inputs: Vec<Node> },
    /// Merge two inputs that are each sorted by `key`.
    MergeSorted { input_left: Node, input_right: Node, key: String },
    /// The default placeholder; never a real plan node.
    Invalid,
}

impl Default for IR {
    /// The placeholder node.
    fn default() -> (result: Self)
        ensures
            result is Invalid,
    {
        IR::Invalid
    }
}

/// A lowered plan: its arenas and the handle of the top node.
pub struct IRPlan {
    /// The top plan node.
    pub lp_top: Node,
    /// The arena owning every plan node.
    pub lp_arena: Arena<IR>,
    /// The arena owning every expression node.
    pub expr_arena: Arena<AExpr>,
}

/// A borrowed view of an [`IRPlan`], cheap to copy and re-root.
#[derive(Clone, Copy)]
pub struct IRPlanRef<'a> {
    /// The top plan node.
    pub lp_top: Node,
    /// The arena owning every plan node.
    pub lp_arena: &'a Arena<IR>,
    /// The arena owning every expression node.
    pub expr_arena: &'a Arena<AExpr>,
}

impl IRPlan {
    /// Bundles a top handle with the two arenas it refers into.
    pub fn new(top: Node, ir_arena: Arena<IR>, expr_arena: Arena<AExpr>) -> (result: Self)
        ensures
            result.lp_top == top,
            result.lp_arena@ == ir_arena@,
            result.expr_arena@ == expr_arena@,
    {
        IRPlan { lp_top: top, lp_arena: ir_arena, expr_arena }
    }

    /// The top plan node.
    pub fn root(&self) -> (result: &IR)
        requires
            self.lp_top.0 < self.lp_arena@.len(),
        ensures
            *result == self.lp_arena@[self.lp_top.0 as int],
    {
        self.lp_arena.get(self.lp_top)
    }

    /// A borrowed view of the whole plan.
    pub fn as_ref<'a>(&'a self) -> (result: IRPlanRef<'a>)
        ensures
            result.lp_top == self.lp_top,
            result.lp_arena@ == self.lp_arena@,
            result.expr_arena@ == self.expr_arena@,
    {
        IRPlanRef {
            lp_top: self.lp_top,
            lp_arena: &self.lp_arena,
            expr_arena: &self.expr_arena,
        }
    }
}

impl<'a> IRPlanRef<'a> {
    /// The top plan node.
    pub fn root(self) -> (result: &'a IR)
        requires
            self.lp_top.0 < self.lp_arena@.len(),
        ensures
            *result == self.lp_arena@[self.lp_top.0 as int],
    {
        self.lp_arena.get(self.lp_top)
    }

    /// The same plan re-rooted at another node.
    pub fn with_root(self, root: Node) -> (result: Self)
        ensures
            result.lp_top == root,
            result.lp_arena@ == self.lp_arena@,
            result.expr_arena@ == self.expr_arena@,
    {
        IRPlanRef { lp_top: root, lp_arena: self.lp_arena, expr_arena: self.expr_arena }
    }
}

} // verus!
