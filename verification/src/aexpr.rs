//! Arena-allocated expression nodes.
//!
//! [`AExpr`] is the compact, handle-based form of [`crate::expr::Expr`]
//! that the lowering pass produces. Each node holds handles to its
//! children, never the children's values. [`ExprIR`] pairs a node
//! handle with its externally visible output-name policy; every
//! expression owned directly by a plan node is wrapped in an
//! [`ExprIR`], while nested children stay bare handles.

use vstd::prelude::*;

use crate::arena::{Arena, Node};
use crate::dtypes::DataType;
use crate::expr::{CastOptions, EvalVariant, LiteralValue, Operator, OpaqueUdf, DtypeUdf,
    QuantileMethod, WindowType};
use crate::options::{FunctionOptions, SortMultipleOptions, SortOptions};

verus! {

/// The output-name policy of an expression owned by a plan node.
#[derive(PartialEq, Eq, Debug)]
pub enum OutputName {
    /// Use this explicit name.
    Alias(String),
    /// Inherit the name baked into the node itself.
    Inherit,
}

impl OutputName {
    /// Structure-preserving copy, equal to `self`.
    pub fn duplicate(&self) -> (result: OutputName)
        ensures
            result == *self,
    {
        match self {
            OutputName::Alias(s) => OutputName::Alias(s.clone()),
            OutputName::Inherit => OutputName::Inherit,
        }
    }
}

/// A handle to an expression node paired with its output-name policy.
#[derive(PartialEq, Eq, Debug)]
pub struct ExprIR {
    node: Node,
    output_name: OutputName,
}

impl ExprIR {
    /// Wraps a node handle with an output-name policy.
    pub fn new(node: Node, output_name: OutputName) -> (result: ExprIR)
        ensures
            result.node_spec() == node,
            result.output_name_spec() == output_name,
    {
        ExprIR { node, output_name }
    }

    /// The wrapped node handle.
    pub closed spec fn node_spec(&self) -> Node {
        self.node
    }

    /// The output-name policy.
    pub closed spec fn output_name_spec(&self) -> OutputName {
        self.output_name
    }

    /// The explicit output name, if the policy carries one.
    pub open spec fn alias_spec(&self) -> Option<Seq<char>> {
        match self.output_name_spec() {
            OutputName::Alias(s) => Some(s@),
            OutputName::Inherit => None,
        }
    }

    /// The wrapped node handle.
    pub fn node(&self) -> (result: Node)
        ensures
            result == self.node_spec(),
    {
        self.node
    }

    /// The explicit output name, if the policy carries one.
    pub fn output_name(&self) -> (result: Option<&String>)
        ensures
            match result {
                Some(s) => self.alias_spec() == Some(s@),
                None => self.alias_spec() is None,
            },
    {
        match &self.output_name {
            OutputName::Alias(s) => Some(s),
            OutputName::Inherit => None,
        }
    }

    /// Structure-preserving copy, equal to `self` in every field.
    pub fn duplicate(&self) -> (result: ExprIR)
        ensures
            result == *self,
    {
        ExprIR { node: self.node, output_name: self.output_name.duplicate() }
    }
}

/// Struct-column operations in the lowered form.
#[derive(PartialEq, Eq, Debug)]
pub enum IRStructFunction {
    /// Select one field of a struct by name.
    FieldByName(String),
}

/// A named function with a statically known meaning, lowered form.
#[derive(PartialEq, Eq, Debug)]
pub enum IRFunctionExpr {
    /// Operations on struct columns.
    StructExpr(IRStructFunction),
}

/// An aggregation node; the input is a handle into the same arena.
#[derive(PartialEq, Eq, Debug)]
pub enum IRAggExpr {
    Min { input: Node, propagate_nans: bool },
    Max { input: Node, propagate_nans: bool },
    Median(Node),
    NUnique(Node),
    First(Node),
    Last(Node),
    Mean(Node),
    Implode(Node),
    Count(Node, bool),
    Quantile { expr: Node, quantile: Node, method: QuantileMethod },
    Sum(Node),
    Std(Node, u8),
    Var(Node, u8),
    AggGroups(Node),
}

impl IRAggExpr {
    /// The handle of this aggregation's primary input.
    pub open spec fn input_spec(&self) -> Node {
        match *self {
            IRAggExpr::Min { input, .. } => input,
            IRAggExpr::Max { input, .. } => input,
            IRAggExpr::Median(input) => input,
            IRAggExpr::NUnique(input) => input,
            IRAggExpr::First(input) => input,
            IRAggExpr::Last(input) => input,
            IRAggExpr::Mean(input) => input,
            IRAggExpr::Implode(input) => input,
            IRAggExpr::Count(input, _) => input,
            IRAggExpr::Quantile { expr, .. } => expr,
            IRAggExpr::Sum(input) => input,
            IRAggExpr::Std(input, _) => input,
            IRAggExpr::Var(input, _) => input,
            IRAggExpr::AggGroups(input) => input,
        }
    }
}

/// One arena-allocated expression node.
///
/// Every field of handle type refers to a node inserted earlier into
/// the same arena, so handles always point backwards.
#[derive(PartialEq, Eq, Debug)]
pub enum AExpr {
    /// Explodes nested values into rows.
    Explode { expr: Node, skip_empty: bool },
    /// A column reference.
    Column(String),
    /// A literal value; possibly still deferred.
    Literal(LiteralValue),
    /// A binary operation.
    BinaryExpr { left: Node, op: Operator, right: Node },
    /// A cast to a concrete type.
    Cast { expr: Node, dtype: DataType, options: CastOptions },
    /// Sorts the input.
    Sort { expr: Node, options: SortOptions },
    /// Takes values at the given indices.
    Gather { expr: Node, idx: Node, returns_scalar: bool },
    /// Sorts `expr` by key expressions.
    SortBy { expr: Node, by: Vec<Node>, sort_options: SortMultipleOptions },
    /// Filters the input by a boolean expression.
    Filter { input: Node, by: Node },
    /// An aggregation.
    Agg(IRAggExpr),
    /// If-then-else.
    Ternary { predicate: Node, truthy: Node, falsy: Node },
    /// An anonymous function call; function and output type were
    /// resolved against the schema when this node was created.
    AnonymousFunction {
        input: Vec<ExprIR>,
        function: OpaqueUdf,
        output_type: DtypeUdf,
        options: FunctionOptions,
        fmt_str: String,
    },
    /// A named function call.
    Function { input: Vec<ExprIR>, function: IRFunctionExpr, options: FunctionOptions },
    /// A window function over partitions.
    Window {
        function: Node,
        partition_by: Vec<Node>,
        order_by: Option<(Node, SortOptions)>,
        options: WindowType,
    },
    /// A slice by offset and length.
    Slice { input: Node, offset: Node, length: Node },
    /// Element-wise evaluation over nested values.
    Eval { expr: Node, evaluation: Node, variant: EvalVariant },
    /// The length of the frame.
    Len,
}

/// The child handles of a node, in scanning order: primary input
/// first, then secondary operands, then list operands in their
/// original order.
pub open spec fn children_spec(e: AExpr) -> Seq<Node> {
    match e {
        AExpr::Explode { expr, .. } => seq![expr],
        AExpr::Column(_) => seq![],
        AExpr::Literal(_) => seq![],
        AExpr::BinaryExpr { left, op, right } => seq![left, right],
        AExpr::Cast { expr, .. } => seq![expr],
        AExpr::Sort { expr, .. } => seq![expr],
        AExpr::Gather { expr, idx, .. } => seq![expr, idx],
        AExpr::SortBy { expr, by, .. } => seq![expr] + by@,
        AExpr::Filter { input, by } => seq![input, by],
        AExpr::Agg(agg) => match agg {
            IRAggExpr::Quantile { expr, quantile, .. } => seq![expr, quantile],
            other => seq![other.input_spec()],
        },
        AExpr::Ternary { predicate, truthy, falsy } => seq![predicate, truthy, falsy],
        AExpr::AnonymousFunction { input, .. } => input@.map_values(|ir: ExprIR| ir.node_spec()),
        AExpr::Function { input, .. } => input@.map_values(|ir: ExprIR| ir.node_spec()),
        AExpr::Window { function, partition_by, order_by, .. } => {
            let base = seq![function] + partition_by@;
            match order_by {
                Some((ob, _)) => base.push(ob),
                None => base,
            }
        },
        AExpr::Slice { input, offset, length } => seq![input, offset, length],
        AExpr::Eval { expr, evaluation, .. } => seq![expr, evaluation],
        AExpr::Len => seq![],
    }
}

/// Well-formedness of the subtree rooted at index `n`: every child
/// handle points strictly backwards, recursively. Lowering only ever
/// creates nodes of this shape.
pub open spec fn wf_node(a: Seq<AExpr>, n: int) -> bool
    decreases n, 1nat, 0nat,
{
    0 <= n < a.len() && wf_children(a, children_spec(a[n]), n)
}

/// Helper of [`wf_node`]: every handle in `cs` points below `n` and
/// roots a well-formed subtree.
pub open spec fn wf_children(a: Seq<AExpr>, cs: Seq<Node>, n: int) -> bool
    decreases n, 0nat, cs.len(),
{
    if cs.len() == 0 {
        true
    } else {
        (cs[0].0 < n && wf_node(a, cs[0].0 as int)) && wf_children(a, cs.drop_first(), n)
    }
}

/// The name of the first column or struct-field access found by a
/// pre-order scan of the subtree rooted at `n`.
pub open spec fn first_col_spec(a: Seq<AExpr>, n: int) -> Option<Seq<char>>
    decreases n, 1nat, 0nat,
{
    if 0 <= n < a.len() {
        match a[n] {
            AExpr::Column(name) => Some(name@),
            AExpr::Function {
                function: IRFunctionExpr::StructExpr(IRStructFunction::FieldByName(name)),
                ..
            } => Some(name@),
            other => first_col_list(a, children_spec(a[n]), n),
        }
    } else {
        None
    }
}

/// Helper of [`first_col_spec`]: the first hit over a child list.
pub open spec fn first_col_list(a: Seq<AExpr>, cs: Seq<Node>, n: int) -> Option<Seq<char>>
    decreases n, 0nat, cs.len(),
{
    if cs.len() == 0 {
        None
    } else if cs[0].0 < n {
        match first_col_spec(a, cs[0].0 as int) {
            Some(name) => Some(name),
            None => first_col_list(a, cs.drop_first(), n),
        }
    } else {
        None
    }
}

/// The name of the first column reference with a non-empty name in a
/// pre-order scan of the subtree rooted at `n`, if there is one.
/// Whole-list evaluation forbids such references.
pub open spec fn named_col_spec(a: Seq<AExpr>, n: int) -> Option<Seq<char>>
    decreases n, 1nat, 0nat,
{
    if 0 <= n < a.len() {
        match a[n] {
            AExpr::Column(name) => if name@.len() > 0 {
                Some(name@)
            } else {
                named_col_list(a, children_spec(a[n]), n)
            },
            other => named_col_list(a, children_spec(a[n]), n),
        }
    } else {
        None
    }
}

/// Helper of [`named_col_spec`] over a child list.
pub open spec fn named_col_list(a: Seq<AExpr>, cs: Seq<Node>, n: int) -> Option<Seq<char>>
    decreases n, 0nat, cs.len(),
{
    if cs.len() == 0 {
        None
    } else if cs[0].0 < n {
        match named_col_spec(a, cs[0].0 as int) {
            Some(name) => Some(name),
            None => named_col_list(a, cs.drop_first(), n),
        }
    } else {
        None
    }
}

/// Whether the node at `n` produces a scalar (one row) when evaluated.
pub open spec fn is_scalar_spec(a: Seq<AExpr>, n: int) -> bool
    decreases n,
{
    if 0 <= n < a.len() {
        match a[n] {
            AExpr::Literal(_) => true,
            AExpr::Len => true,
            AExpr::Agg(_) => true,
            AExpr::Cast { expr, .. } => expr.0 < n && is_scalar_spec(a, expr.0 as int),
            AExpr::BinaryExpr { left, op, right } => left.0 < n && right.0 < n && is_scalar_spec(
                a,
                left.0 as int,
            ) && is_scalar_spec(a, right.0 as int),
            AExpr::Ternary { predicate, truthy, falsy } => predicate.0 < n && truthy.0 < n
                && falsy.0 < n && is_scalar_spec(a, predicate.0 as int) && is_scalar_spec(
                a,
                truthy.0 as int,
            ) && is_scalar_spec(a, falsy.0 as int),
            AExpr::Gather { returns_scalar, .. } => returns_scalar,
            AExpr::AnonymousFunction { options, .. } => crate::options::has_flags(
                options.flags.bits,
                crate::options::RETURNS_SCALAR,
            ),
            AExpr::Function { options, .. } => crate::options::has_flags(
                options.flags.bits,
                crate::options::RETURNS_SCALAR,
            ),
            _ => false,
        }
    } else {
        false
    }
}

/// Executable child-list extraction matching [`children_spec`].
pub fn children_of(e: &AExpr) -> (result: Vec<Node>)
    ensures
        result@ == children_spec(*e),
{
    let mut out: Vec<Node> = Vec::new();
    match e {
        AExpr::Explode { expr, .. } => { out.push(*expr); },
        AExpr::Column(_) => {},
        AExpr::Literal(_) => {},
        AExpr::BinaryExpr { left, op: _, right } => {
            out.push(*left);
            out.push(*right);
        },
        AExpr::Cast { expr, .. } => { out.push(*expr); },
        AExpr::Sort { expr, .. } => { out.push(*expr); },
        AExpr::Gather { expr, idx, .. } => {
            out.push(*expr);
            out.push(*idx);
        },
        AExpr::SortBy { expr, by, .. } => {
            out.push(*expr);
            let mut i: usize = 0;
            while i < by.len()
                invariant
                    i <= by@.len(),
                    out@ == seq![*expr] + by@.take(i as int),
                decreases by@.len() - i,
            {
                out.push(by[i]);
                proof {
                    assert(by@.take(i + 1) =~= by@.take(i as int).push(by@[i as int]));
                    assert(out@ =~= seq![*expr] + by@.take(i + 1));
                }
                i = i + 1;
            }
            proof {
                assert(by@.take(by@.len() as int) =~= by@);
            }
        },
        AExpr::Filter { input, by } => {
            out.push(*input);
            out.push(*by);
        },
        AExpr::Agg(agg) => {
            match agg {
                IRAggExpr::Quantile { expr, quantile, .. } => {
                    out.push(*expr);
                    out.push(*quantile);
                },
                IRAggExpr::Min { input, .. } => { out.push(*input); },
                IRAggExpr::Max { input, .. } => { out.push(*input); },
                IRAggExpr::Median(input) => { out.push(*input); },
                IRAggExpr::NUnique(input) => { out.push(*input); },
                IRAggExpr::First(input) => { out.push(*input); },
                IRAggExpr::Last(input) => { out.push(*input); },
                IRAggExpr::Mean(input) => { out.push(*input); },
                IRAggExpr::Implode(input) => { out.push(*input); },
                IRAggExpr::Count(input, _) => { out.push(*input); },
                IRAggExpr::Sum(input) => { out.push(*input); },
                IRAggExpr::Std(input, _) => { out.push(*input); },
                IRAggExpr::Var(input, _) => { out.push(*input); },
                IRAggExpr::AggGroups(input) => { out.push(*input); },
            }
        },
        AExpr::Ternary { predicate, truthy, falsy } => {
            out.push(*predicate);
            out.push(*truthy);
            out.push(*falsy);
        },
        AExpr::AnonymousFunction { input, .. } => {
            push_input_nodes(&mut out, input);
        },
        AExpr::Function { input, .. } => {
            push_input_nodes(&mut out, input);
        },
        AExpr::Window { function, partition_by, order_by, .. } => {
            out.push(*function);
            let mut i: usize = 0;
            while i < partition_by.len()
                invariant
                    i <= partition_by@.len(),
                    out@ == seq![*function] + partition_by@.take(i as int),
                decreases partition_by@.len() - i,
            {
                out.push(partition_by[i]);
                proof {
                    assert(partition_by@.take(i + 1) =~= partition_by@.take(i as int).push(
                        partition_by@[i as int],
                    ));
                    assert(out@ =~= seq![*function] + partition_by@.take(i + 1));
                }
                i = i + 1;
            }
            proof {
                assert(partition_by@.take(partition_by@.len() as int) =~= partition_by@);
            }
            if let Some((ob, _)) = order_by {
                out.push(*ob);
            }
        },
        AExpr::Slice { input, offset, length } => {
            out.push(*input);
            out.push(*offset);
            out.push(*length);
        },
        AExpr::Eval { expr, evaluation, .. } => {
            out.push(*expr);
            out.push(*evaluation);
        },
        AExpr::Len => {},
    }
    proof {
        assert(out@ =~= children_spec(*e));
    }
    out
}

/// Every child of a well-formed node sits strictly below it and roots
/// a well-formed subtree of its own.
pub proof fn lemma_wf_children_index(a: Seq<AExpr>, cs: Seq<Node>, n: int, i: int)
    requires
        wf_children(a, cs, n),
        0 <= i < cs.len(),
    ensures
        cs[i].0 < n,
        wf_node(a, cs[i].0 as int),
    decreases i,
{
    if i > 0 {
        lemma_wf_children_index(a, cs.drop_first(), n, i - 1);
        assert(cs.drop_first()[i - 1] == cs[i]);
    }
}

/// Appending to the arena never changes which subtrees are
/// well-formed: well-formedness reads only entries below `n`.
pub proof fn lemma_wf_node_prefix(a: Seq<AExpr>, b: Seq<AExpr>, n: int)
    requires
        crate::arena::prefix_of(a, b),
        wf_node(a, n),
    ensures
        wf_node(b, n),
    decreases n, 1nat, 0nat,
{
    lemma_wf_children_prefix(a, b, children_spec(a[n]), n);
}

/// Helper of [`lemma_wf_node_prefix`] over a child list.
pub proof fn lemma_wf_children_prefix(a: Seq<AExpr>, b: Seq<AExpr>, cs: Seq<Node>, n: int)
    requires
        crate::arena::prefix_of(a, b),
        wf_children(a, cs, n),
        0 <= n < a.len(),
    ensures
        wf_children(b, cs, n),
    decreases n, 0nat, cs.len(),
{
    if cs.len() > 0 {
        lemma_wf_node_prefix(a, b, cs[0].0 as int);
        lemma_wf_children_prefix(a, b, cs.drop_first(), n);
    }
}

/// Appending to the arena never changes the result of the keep-name
/// scan on an existing subtree.
pub proof fn lemma_first_col_prefix(a: Seq<AExpr>, b: Seq<AExpr>, n: int)
    requires
        crate::arena::prefix_of(a, b),
        0 <= n < a.len(),
    ensures
        first_col_spec(b, n) == first_col_spec(a, n),
    decreases n, 1nat, 0nat,
{
    lemma_first_col_list_prefix(a, b, children_spec(a[n]), n);
}

/// Helper of [`lemma_first_col_prefix`] over a child list.
pub proof fn lemma_first_col_list_prefix(a: Seq<AExpr>, b: Seq<AExpr>, cs: Seq<Node>, n: int)
    requires
        crate::arena::prefix_of(a, b),
        0 <= n < a.len(),
    ensures
        first_col_list(b, cs, n) == first_col_list(a, cs, n),
    decreases n, 0nat, cs.len(),
{
    if cs.len() > 0 {
        if cs[0].0 < n {
            lemma_first_col_prefix(a, b, cs[0].0 as int);
        }
        lemma_first_col_list_prefix(a, b, cs.drop_first(), n);
    }
}

/// Appending to the arena never changes the named-column scan on an
/// existing subtree.
pub proof fn lemma_named_col_prefix(a: Seq<AExpr>, b: Seq<AExpr>, n: int)
    requires
        crate::arena::prefix_of(a, b),
        0 <= n < a.len(),
    ensures
        named_col_spec(b, n) == named_col_spec(a, n),
    decreases n, 1nat, 0nat,
{
    lemma_named_col_list_prefix(a, b, children_spec(a[n]), n);
}

/// Helper of [`lemma_named_col_prefix`] over a child list.
pub proof fn lemma_named_col_list_prefix(a: Seq<AExpr>, b: Seq<AExpr>, cs: Seq<Node>, n: int)
    requires
        crate::arena::prefix_of(a, b),
        0 <= n < a.len(),
    ensures
        named_col_list(b, cs, n) == named_col_list(a, cs, n),
    decreases n, 0nat, cs.len(),
{
    if cs.len() > 0 {
        if cs[0].0 < n {
            lemma_named_col_prefix(a, b, cs[0].0 as int);
        }
        lemma_named_col_list_prefix(a, b, cs.drop_first(), n);
    }
}

/// Appending to the arena never changes whether an existing subtree
/// is scalar.
pub proof fn lemma_is_scalar_prefix(a: Seq<AExpr>, b: Seq<AExpr>, n: int)
    requires
        crate::arena::prefix_of(a, b),
        0 <= n < a.len(),
    ensures
        is_scalar_spec(b, n) == is_scalar_spec(a, n),
    decreases n,
{
    match a[n] {
        AExpr::Cast { expr, .. } => {
            if expr.0 < n {
                lemma_is_scalar_prefix(a, b, expr.0 as int);
            }
        },
        AExpr::BinaryExpr { left, op, right } => {
            if left.0 < n {
                lemma_is_scalar_prefix(a, b, left.0 as int);
            }
            if right.0 < n {
                lemma_is_scalar_prefix(a, b, right.0 as int);
            }
        },
        AExpr::Ternary { predicate, truthy, falsy } => {
            if predicate.0 < n {
                lemma_is_scalar_prefix(a, b, predicate.0 as int);
            }
            if truthy.0 < n {
                lemma_is_scalar_prefix(a, b, truthy.0 as int);
            }
            if falsy.0 < n {
                lemma_is_scalar_prefix(a, b, falsy.0 as int);
            }
        },
        _ => {},
    }
}

/// Whether the node at `node` produces a scalar when evaluated.
pub fn is_scalar_ae(node: Node, expr_arena: &Arena<AExpr>) -> (result: bool)
    requires
        wf_node(expr_arena@, node.0 as int),
    ensures
        result == is_scalar_spec(expr_arena@, node.0 as int),
    decreases node.0,
{
    proof {
        let cs = children_spec(expr_arena@[node.0 as int]);
        assert forall|i: int| 0 <= i < cs.len() implies (#[trigger] cs[i]).0 < node.0
            && wf_node(expr_arena@, cs[i].0 as int) by {
            lemma_wf_children_index(expr_arena@, cs, node.0 as int, i);
        }
    }
    match expr_arena.get(node) {
        AExpr::Literal(_) => true,
        AExpr::Len => true,
        AExpr::Agg(_) => true,
        AExpr::Cast { expr, .. } => is_scalar_ae(*expr, expr_arena),
        AExpr::BinaryExpr { left, op: _, right } => {
            let l = is_scalar_ae(*left, expr_arena);
            l && is_scalar_ae(*right, expr_arena)
        },
        AExpr::Ternary { predicate, truthy, falsy } => {
            let p = is_scalar_ae(*predicate, expr_arena);
            let t = p && is_scalar_ae(*truthy, expr_arena);
            t && is_scalar_ae(*falsy, expr_arena)
        },
        AExpr::Gather { returns_scalar, .. } => *returns_scalar,
        AExpr::AnonymousFunction { options, .. } => options.flags.returns_scalar(),
        AExpr::Function { options, .. } => options.flags.returns_scalar(),
        _ => false,
    }
}

/// The name of the first column or struct-field access in a pre-order
/// scan of the subtree at `node`; what a keep-name wrapper resolves to.
pub fn first_col_name(node: Node, expr_arena: &Arena<AExpr>) -> (result: Option<String>)
    requires
        wf_node(expr_arena@, node.0 as int),
    ensures
        match result {
            Some(s) => first_col_spec(expr_arena@, node.0 as int) == Some(s@),
            None => first_col_spec(expr_arena@, node.0 as int) is None,
        },
    decreases node.0,
{
    let e = expr_arena.get(node);
    match e {
        AExpr::Column(name) => { return Some(name.clone()); },
        AExpr::Function {
            function: IRFunctionExpr::StructExpr(IRStructFunction::FieldByName(name)),
            ..
        } => { return Some(name.clone()); },
        _ => {},
    }
    let children = children_of(e);
    let ghost a = expr_arena@;
    let ghost n = node.0 as int;
    let ghost cs = children@;
    proof {
        assert(cs.skip(0) =~= cs);
    }
    let mut i: usize = 0;
    while i < children.len()
        invariant
            i <= cs.len(),
            children@ == cs,
            expr_arena@ == a,
            cs == children_spec(a[n]),
            n == node.0 as int,
            0 <= n < a.len(),
            wf_children(a, cs, n),
            first_col_spec(a, n) == first_col_list(a, cs, n),
            first_col_list(a, cs.skip(i as int), n) == first_col_list(a, cs, n),
        decreases cs.len() - i,
    {
        proof {
            lemma_wf_children_index(a, cs, n, i as int);
            assert(cs.skip(i as int)[0] == cs[i as int]);
            assert(cs.skip(i as int).drop_first() =~= cs.skip(i + 1));
        }
        let hit = first_col_name(children[i], expr_arena);
        if let Some(name) = hit {
            return Some(name);
        }
        i = i + 1;
    }
    proof {
        assert(cs.skip(cs.len() as int) =~= Seq::<Node>::empty());
    }
    None
}

/// The first column referenced under `node` whose name is non-empty;
/// whole-list evaluation rejects the subtree when this finds one.
pub fn find_named_column(node: Node, expr_arena: &Arena<AExpr>) -> (result: Option<String>)
    requires
        wf_node(expr_arena@, node.0 as int),
    ensures
        match result {
            Some(s) => named_col_spec(expr_arena@, node.0 as int) == Some(s@),
            None => named_col_spec(expr_arena@, node.0 as int) is None,
        },
    decreases node.0,
{
    let e = expr_arena.get(node);
    if let AExpr::Column(name) = e {
        if !name.as_str().is_empty() {
            return Some(name.clone());
        }
    }
    let children = children_of(e);
    let ghost a = expr_arena@;
    let ghost n = node.0 as int;
    let ghost cs = children@;
    proof {
        assert(cs.skip(0) =~= cs);
    }
    let mut i: usize = 0;
    while i < children.len()
        invariant
            i <= cs.len(),
            children@ == cs,
            expr_arena@ == a,
            cs == children_spec(a[n]),
            n == node.0 as int,
            0 <= n < a.len(),
            wf_children(a, cs, n),
            named_col_spec(a, n) == named_col_list(a, cs, n),
            named_col_list(a, cs.skip(i as int), n) == named_col_list(a, cs, n),
        decreases cs.len() - i,
    {
        proof {
            lemma_wf_children_index(a, cs, n, i as int);
            assert(cs.skip(i as int)[0] == cs[i as int]);
            assert(cs.skip(i as int).drop_first() =~= cs.skip(i + 1));
        }
        let hit = find_named_column(children[i], expr_arena);
        if let Some(name) = hit {
            return Some(name);
        }
        i = i + 1;
    }
    proof {
        assert(cs.skip(cs.len() as int) =~= Seq::<Node>::empty());
    }
    None
}

/// The output type a float-producing aggregation reports for an
/// input of type `dt`: single precision stays single precision,
/// everything else widens to double precision.
pub open spec fn float_agg_dtype(dt: DataType) -> DataType {
    if dt == DataType::Float32 {
        DataType::Float32
    } else {
        DataType::Float64
    }
}

/// The output type of the node at `n` against schema `s`, as far as
/// lowering needs to determine it; `None` where this pass does not
/// infer a type (an unknown column, an uninferable function, a
/// supertype that does not exist, a list evaluation of a non-list).
pub open spec fn dtype_of_spec(a: Seq<AExpr>, n: int, s: crate::dtypes::SchemaV) -> Option<
    DataType,
>
    decreases n,
{
    if 0 <= n < a.len() {
        match a[n] {
            AExpr::Column(name) => crate::dtypes::lookup_spec(s, name@),
            AExpr::Literal(lv) => Some(crate::expr::literal_dtype_spec(lv)),
            AExpr::BinaryExpr { left, op, right } => if left.0 < n && right.0 < n {
                if op.is_comparison_spec() {
                    Some(DataType::Boolean)
                } else {
                    match (
                        dtype_of_spec(a, left.0 as int, s),
                        dtype_of_spec(a, right.0 as int, s),
                    ) {
                        (Some(l), Some(r)) => crate::dtypes::supertype_spec(l, r),
                        _ => None,
                    }
                }
            } else {
                None
            },
            AExpr::Cast { dtype, .. } => Some(dtype),
            AExpr::Sort { expr, .. } => if expr.0 < n {
                dtype_of_spec(a, expr.0 as int, s)
            } else {
                None
            },
            AExpr::Gather { expr, .. } => if expr.0 < n {
                dtype_of_spec(a, expr.0 as int, s)
            } else {
                None
            },
            AExpr::SortBy { expr, .. } => if expr.0 < n {
                dtype_of_spec(a, expr.0 as int, s)
            } else {
                None
            },
            AExpr::Filter { input, .. } => if input.0 < n {
                dtype_of_spec(a, input.0 as int, s)
            } else {
                None
            },
            AExpr::Explode { expr, .. } => if expr.0 < n {
                match dtype_of_spec(a, expr.0 as int, s) {
                    Some(DataType::List(inner)) => Some(*inner),
                    other => other,
                }
            } else {
                None
            },
            AExpr::Agg(agg) => if agg.input_spec().0 < n {
                let input_dt = dtype_of_spec(a, agg.input_spec().0 as int, s);
                match agg {
                    IRAggExpr::Mean { .. } | IRAggExpr::Median { .. } | IRAggExpr::Quantile {
                        ..
                    } | IRAggExpr::Std { .. } | IRAggExpr::Var { .. } => match input_dt {
                        Some(dt) => Some(float_agg_dtype(dt)),
                        None => None,
                    },
                    IRAggExpr::NUnique { .. } | IRAggExpr::Count { .. } => Some(DataType::UInt32),
                    IRAggExpr::Implode { .. } => match input_dt {
                        Some(dt) => Some(DataType::List(Box::new(dt))),
                        None => None,
                    },
                    IRAggExpr::AggGroups { .. } => Some(
                        DataType::List(Box::new(DataType::UInt32)),
                    ),
                    other => input_dt,
                }
            } else {
                None
            },
            AExpr::Ternary { predicate, truthy, falsy } => if truthy.0 < n && falsy.0 < n {
                match (dtype_of_spec(a, truthy.0 as int, s), dtype_of_spec(a, falsy.0 as int, s)) {
                    (Some(t), Some(f)) => crate::dtypes::supertype_spec(t, f),
                    _ => None,
                }
            } else {
                None
            },
            AExpr::AnonymousFunction { output_type, .. } => Some(output_type.dtype),
            AExpr::Function { .. } => None,
            AExpr::Window { function, .. } => if function.0 < n {
                dtype_of_spec(a, function.0 as int, s)
            } else {
                None
            },
            AExpr::Slice { input, .. } => if input.0 < n {
                dtype_of_spec(a, input.0 as int, s)
            } else {
                None
            },
            AExpr::Eval { expr, evaluation, variant } => if expr.0 < n && evaluation.0 < n {
                match dtype_of_spec(a, expr.0 as int, s) {
                    Some(edt) => match variant {
                        EvalVariant::List => match edt {
                            DataType::List(inner) => match dtype_of_spec(
                                a,
                                evaluation.0 as int,
                                seq![(Seq::<char>::empty(), *inner)],
                            ) {
                                Some(ev) => Some(DataType::List(Box::new(ev))),
                                None => None,
                            },
                            _ => None,
                        },
                        EvalVariant::Cumulative { .. } => dtype_of_spec(
                            a,
                            evaluation.0 as int,
                            seq![(Seq::<char>::empty(), edt)],
                        ),
                    },
                    None => None,
                }
            } else {
                None
            },
            AExpr::Len => Some(DataType::UInt32),
        }
    } else {
        None
    }
}

/// Appending to the arena never changes the inferred type of an
/// existing subtree.
pub proof fn lemma_dtype_prefix(a: Seq<AExpr>, b: Seq<AExpr>, n: int, s: crate::dtypes::SchemaV)
    requires
        crate::arena::prefix_of(a, b),
        0 <= n < a.len(),
    ensures
        dtype_of_spec(b, n, s) == dtype_of_spec(a, n, s),
    decreases n,
{
    match a[n] {
        AExpr::BinaryExpr { left, op, right } => {
            if left.0 < n && right.0 < n {
                lemma_dtype_prefix(a, b, left.0 as int, s);
                lemma_dtype_prefix(a, b, right.0 as int, s);
            }
        },
        AExpr::Sort { expr, .. } => {
            if expr.0 < n {
                lemma_dtype_prefix(a, b, expr.0 as int, s);
            }
        },
        AExpr::Gather { expr, .. } => {
            if expr.0 < n {
                lemma_dtype_prefix(a, b, expr.0 as int, s);
            }
        },
        AExpr::SortBy { expr, .. } => {
            if expr.0 < n {
                lemma_dtype_prefix(a, b, expr.0 as int, s);
            }
        },
        AExpr::Filter { input, .. } => {
            if input.0 < n {
                lemma_dtype_prefix(a, b, input.0 as int, s);
            }
        },
        AExpr::Explode { expr, .. } => {
            if expr.0 < n {
                lemma_dtype_prefix(a, b, expr.0 as int, s);
            }
        },
        AExpr::Agg(agg) => {
            if agg.input_spec().0 < n {
                lemma_dtype_prefix(a, b, agg.input_spec().0 as int, s);
            }
        },
        AExpr::Ternary { predicate, truthy, falsy } => {
            if truthy.0 < n && falsy.0 < n {
                lemma_dtype_prefix(a, b, truthy.0 as int, s);
                lemma_dtype_prefix(a, b, falsy.0 as int, s);
            }
        },
        AExpr::Window { function, .. } => {
            if function.0 < n {
                lemma_dtype_prefix(a, b, function.0 as int, s);
            }
        },
        AExpr::Slice { input, .. } => {
            if input.0 < n {
                lemma_dtype_prefix(a, b, input.0 as int, s);
            }
        },
        AExpr::Eval { expr, evaluation, variant } => {
            if expr.0 < n && evaluation.0 < n {
                lemma_dtype_prefix(a, b, expr.0 as int, s);
                match dtype_of_spec(a, expr.0 as int, s) {
                    Some(edt) => {
                        match variant {
                            EvalVariant::List => {
                                match edt {
                                    DataType::List(inner) => {
                                        lemma_dtype_prefix(
                                            a,
                                            b,
                                            evaluation.0 as int,
                                            seq![(Seq::<char>::empty(), *inner)],
                                        );
                                    },
                                    _ => {},
                                }
                            },
                            EvalVariant::Cumulative { .. } => {
                                lemma_dtype_prefix(
                                    a,
                                    b,
                                    evaluation.0 as int,
                                    seq![(Seq::<char>::empty(), edt)],
                                );
                            },
                        }
                    },
                    None => {},
                }
            }
        },
        _ => {},
    }
}

/// Infers the output type of the node at `node` against `schema`, as
/// far as lowering needs it.
pub fn dtype_of(node: Node, expr_arena: &Arena<AExpr>, schema: &crate::dtypes::Schema) -> (result:
    Result<DataType, crate::error::IrError>)
    requires
        wf_node(expr_arena@, node.0 as int),
    ensures
        match result {
            Ok(dt) => dtype_of_spec(expr_arena@, node.0 as int, schema@) == Some(dt),
            Err(_) => dtype_of_spec(expr_arena@, node.0 as int, schema@) is None,
        },
    decreases node.0,
{
    proof {
        let cs = children_spec(expr_arena@[node.0 as int]);
        assert forall|i: int| 0 <= i < cs.len() implies (#[trigger] cs[i]).0 < node.0
            && wf_node(expr_arena@, cs[i].0 as int) by {
            lemma_wf_children_index(expr_arena@, cs, node.0 as int, i);
        }
    }
    match expr_arena.get(node) {
        AExpr::Column(name) => match schema.get(name) {
            Some(dt) => Ok(dt.deep_clone()),
            None => Err(crate::error::IrError::ColumnNotFound(name.clone())),
        },
        AExpr::Literal(lv) => Ok(lv.dtype()),
        AExpr::BinaryExpr { left, op, right } => {
            if op.is_comparison() {
                Ok(DataType::Boolean)
            } else {
                let l = dtype_of(*left, expr_arena, schema)?;
                let r = dtype_of(*right, expr_arena, schema)?;
                match crate::dtypes::get_supertype(&l, &r) {
                    Some(st) => Ok(st),
                    None => Err(crate::error::IrError::CannotInferType),
                }
            }
        },
        AExpr::Cast { dtype, .. } => Ok(dtype.deep_clone()),
        AExpr::Sort { expr, .. } => dtype_of(*expr, expr_arena, schema),
        AExpr::Gather { expr, .. } => dtype_of(*expr, expr_arena, schema),
        AExpr::SortBy { expr, .. } => dtype_of(*expr, expr_arena, schema),
        AExpr::Filter { input, .. } => dtype_of(*input, expr_arena, schema),
        AExpr::Explode { expr, .. } => {
            let dt = dtype_of(*expr, expr_arena, schema)?;
            match dt {
                DataType::List(inner) => Ok(*inner),
                other => Ok(other),
            }
        },
        AExpr::Agg(agg) => {
            let input: Node = match agg {
                IRAggExpr::Quantile { expr, .. } => *expr,
                IRAggExpr::Min { input, .. } => *input,
                IRAggExpr::Max { input, .. } => *input,
                IRAggExpr::Median(input) => *input,
                IRAggExpr::NUnique(input) => *input,
                IRAggExpr::First(input) => *input,
                IRAggExpr::Last(input) => *input,
                IRAggExpr::Mean(input) => *input,
                IRAggExpr::Implode(input) => *input,
                IRAggExpr::Count(input, _) => *input,
                IRAggExpr::Sum(input) => *input,
                IRAggExpr::Std(input, _) => *input,
                IRAggExpr::Var(input, _) => *input,
                IRAggExpr::AggGroups(input) => *input,
            };
            match agg {
                IRAggExpr::Mean(_) | IRAggExpr::Median(_) | IRAggExpr::Quantile { .. }
                    | IRAggExpr::Std(..) | IRAggExpr::Var(..) => {
                    let dt = dtype_of(input, expr_arena, schema)?;
                    if dt.eq_dtype(&DataType::Float32) {
                        Ok(DataType::Float32)
                    } else {
                        Ok(DataType::Float64)
                    }
                },
                IRAggExpr::NUnique(_) | IRAggExpr::Count(..) => Ok(DataType::UInt32),
                IRAggExpr::Implode(_) => {
                    let dt = dtype_of(input, expr_arena, schema)?;
                    Ok(DataType::List(Box::new(dt)))
                },
                IRAggExpr::AggGroups(_) => Ok(DataType::List(Box::new(DataType::UInt32))),
                _ => dtype_of(input, expr_arena, schema),
            }
        },
        AExpr::Ternary { predicate: _, truthy, falsy } => {
            let t = dtype_of(*truthy, expr_arena, schema)?;
            let f = dtype_of(*falsy, expr_arena, schema)?;
            match crate::dtypes::get_supertype(&t, &f) {
                Some(st) => Ok(st),
                None => Err(crate::error::IrError::CannotInferType),
            }
        },
        AExpr::AnonymousFunction { output_type, .. } => Ok(output_type.dtype.deep_clone()),
        AExpr::Function { .. } => Err(crate::error::IrError::CannotInferType),
        AExpr::Window { function, .. } => dtype_of(*function, expr_arena, schema),
        AExpr::Slice { input, .. } => dtype_of(*input, expr_arena, schema),
        AExpr::Eval { expr, evaluation, variant } => {
            let edt = dtype_of(*expr, expr_arena, schema)?;
            match variant {
                EvalVariant::List => match edt {
                    DataType::List(inner) => {
                        let placeholder = crate::dtypes::Schema::new().with_field(
                            String::new(),
                            *inner,
                        );
                        proof {
                            assert(placeholder@ =~= seq![
                                (
                                    Seq::<char>::empty(),
                                    *dtype_of_spec(
                                        expr_arena@,
                                        expr.0 as int,
                                        schema@,
                                    )->Some_0->List_0,
                                ),
                            ]);
                        }
                        let ev = dtype_of(*evaluation, expr_arena, &placeholder)?;
                        Ok(DataType::List(Box::new(ev)))
                    },
                    other => Err(crate::error::IrError::EvalNotAList(other)),
                },
                EvalVariant::Cumulative { .. } => {
                    let placeholder = crate::dtypes::Schema::new().with_field(String::new(), edt);
                    proof {
                        assert(placeholder@ =~= seq![
                            (
                                Seq::<char>::empty(),
                                dtype_of_spec(expr_arena@, expr.0 as int, schema@)->Some_0,
                            ),
                        ]);
                    }
                    dtype_of(*evaluation, expr_arena, &placeholder)
                },
            }
        },
        AExpr::Len => Ok(DataType::UInt32),
    }
}

/// Appends the node handles of a wrapped expression list.
fn push_input_nodes(out: &mut Vec<Node>, input: &Vec<ExprIR>)
    requires
        old(out)@.len() == 0,
    ensures
        final(out)@ == input@.map_values(|ir: ExprIR| ir.node_spec()),
{
    let mut i: usize = 0;
    while i < input.len()
        invariant
            i <= input@.len(),
            out@ == input@.take(i as int).map_values(|ir: ExprIR| ir.node_spec()),
        decreases input@.len() - i,
    {
        out.push(input[i].node());
        proof {
            assert(input@.take(i + 1) =~= input@.take(i as int).push(input@[i as int]));
            assert(out@ =~= input@.take(i + 1).map_values(|ir: ExprIR| ir.node_spec()));
        }
        i = i + 1;
    }
    proof {
        assert(input@.take(input@.len() as int) =~= input@);
    }
}

} // verus!
