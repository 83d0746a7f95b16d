//! Lowering: the one-shot conversion of a user-facing expression tree
//! into arena-allocated expression nodes.
//!
//! The pass walks the tree once, inserts an [`AExpr`] for each
//! construct, and produces for every sub-expression both a handle and
//! its inherited output name. Its contract has two parts: the
//! relation [`lowered`] pins, construct by construct, the shape of
//! the inserted subtree and which positions materialize a deferred
//! literal eagerly, and the function [`out_name`] pins the propagated
//! output name of every construct. The arena is append-only
//! throughout; on failure the caller discards it.

use vstd::prelude::*;

use crate::aexpr::{
    dtype_of_spec, first_col_spec, is_scalar_spec, named_col_spec, wf_node, AExpr, ExprIR,
    IRAggExpr, IRFunctionExpr, IRStructFunction,
};
use crate::arena::{prefix_of, Node};
use crate::dtypes::{contains_name_spec, Schema, SchemaV};
use crate::expr::{
    apply_transform_spec, element_dtype_spec, function_display_spec, len_output_name,
    literal_output_name, materialize_spec, AggExpr, Expr, FunctionExpr, StructFunction,
};
use crate::options::{LENGTH_PRESERVING, ROW_SEPARABLE};

verus! {

/// The ghost image of a lowering context: the schema in scope and the
/// optional enclosing-struct scope used to resolve field accesses.
pub ghost struct CtxV {
    /// The schema expressions are lowered against.
    pub schema: SchemaV,
    /// The handle of the enclosing struct expression and its field
    /// schema, when lowering runs inside a struct scope.
    pub with_fields: Option<(Node, SchemaV)>,
}

/// The context the lowering pass carries: the current schema, plus an
/// optional enclosing-struct scope for resolving field accesses.
pub struct ExprToIRContext<'a> {
    /// The handle of the enclosing struct expression and its field
    /// schema, when lowering runs inside a struct scope.
    pub with_fields: Option<(Node, &'a Schema)>,
    /// The schema expressions are lowered against.
    pub schema: &'a Schema,
}

impl<'a> View for ExprToIRContext<'a> {
    type V = CtxV;

    open spec fn view(&self) -> CtxV {
        CtxV {
            schema: self.schema@,
            with_fields: match self.with_fields {
                Some((node, fields)) => Some((node, fields@)),
                None => None,
            },
        }
    }
}

/// Whether a user-defined function that requires `required` resolves
/// against schema `s`.
pub open spec fn resolves(required: Option<String>, s: SchemaV) -> bool {
    match required {
        Some(c) => contains_name_spec(s, c@),
        None => true,
    }
}

/// The single-column placeholder context a nested evaluation is
/// lowered in: one unnamed column of the element type.
pub open spec fn eval_ctx(element: crate::dtypes::DataType) -> CtxV {
    CtxV { schema: seq![(Seq::<char>::empty(), element)], with_fields: None }
}

/// Whether a lowered function node carries the lowered form of the
/// given named function.
pub open spec fn function_matches(f: FunctionExpr, ir_f: IRFunctionExpr) -> bool {
    match f {
        FunctionExpr::StructExpr(StructFunction::FieldByName(fname)) => function_matches_name(
            fname@,
            ir_f,
        ),
    }
}

/// Whether a lowered function node selects the struct field `fname`.
pub open spec fn function_matches_name(fname: Seq<char>, ir_f: IRFunctionExpr) -> bool {
    ir_f matches IRFunctionExpr::StructExpr(IRStructFunction::FieldByName(f2)) && f2@ == fname
}

/// The output name the lowering of `e` to node `n` of arena `a`
/// propagates: an alias names itself; a column names itself; binary
/// and wrapper constructs inherit their primary input's name; a
/// ternary takes the `truthy` branch's name; a function call takes
/// its first input's name, or its display string when it has no
/// inputs; a keep-name wrapper takes the first column found in the
/// lowered subtree; `None` where lowering fails or the arena does not
/// hold the lowered form of `e` at `n`.
pub open spec fn out_name(e: Expr, a: Seq<AExpr>, n: Node) -> Option<Seq<char>>
    decreases e,
{
    if n.0 < a.len() {
        match e {
            Expr::Alias(_, alias) => Some(alias@),
            Expr::Column(c) => Some(c@),
            Expr::Literal(_) => Some(literal_output_name()),
            Expr::BinaryExpr { left, .. } => match a[n.0 as int] {
                AExpr::BinaryExpr { left: l, .. } => out_name(*left, a, l),
                _ => None,
            },
            Expr::Cast { expr, .. } => match a[n.0 as int] {
                AExpr::Cast { expr: en, .. } => out_name(*expr, a, en),
                _ => None,
            },
            Expr::Sort { expr, .. } => match a[n.0 as int] {
                AExpr::Sort { expr: en, .. } => out_name(*expr, a, en),
                _ => None,
            },
            Expr::Gather { expr, .. } => match a[n.0 as int] {
                AExpr::Gather { expr: en, .. } => out_name(*expr, a, en),
                _ => None,
            },
            Expr::SortBy { expr, .. } => match a[n.0 as int] {
                AExpr::SortBy { expr: en, .. } => out_name(*expr, a, en),
                _ => None,
            },
            Expr::Filter { input, .. } => match a[n.0 as int] {
                AExpr::Filter { input: inn, .. } => out_name(*input, a, inn),
                _ => None,
            },
            Expr::Agg(agg) => match a[n.0 as int] {
                AExpr::Agg(ia) => out_name(agg_input(agg), a, ia.input_spec()),
                _ => None,
            },
            Expr::Ternary { truthy, .. } => match a[n.0 as int] {
                AExpr::Ternary { truthy: t, .. } => out_name(*truthy, a, t),
                _ => None,
            },
            Expr::Function { input, function } => if input@.len() == 0 {
                Some(function_display_spec(function))
            } else {
                match a[n.0 as int] {
                    AExpr::Function { input: irs, .. } => if irs@.len() > 0 {
                        irs@[0].alias_spec()
                    } else {
                        None
                    },
                    _ => None,
                }
            },
            Expr::Explode { input, .. } => match a[n.0 as int] {
                AExpr::Explode { expr: en, .. } => out_name(*input, a, en),
                _ => None,
            },
            Expr::Window { function, .. } => match a[n.0 as int] {
                AExpr::Window { function: fnn, .. } => out_name(*function, a, fnn),
                _ => None,
            },
            Expr::Slice { input, .. } => match a[n.0 as int] {
                AExpr::Slice { input: inn, .. } => out_name(*input, a, inn),
                _ => None,
            },
            Expr::Eval { expr, .. } => match a[n.0 as int] {
                AExpr::Eval { expr: en, .. } => out_name(*expr, a, en),
                _ => None,
            },
            Expr::Len => Some(len_output_name()),
            Expr::AnonymousFunction { input, fmt_str, .. } => if input@.len() == 0 {
                Some(fmt_str@)
            } else {
                match a[n.0 as int] {
                    AExpr::AnonymousFunction { input: irs, .. } => if irs@.len() > 0 {
                        irs@[0].alias_spec()
                    } else {
                        None
                    },
                    _ => None,
                }
            },
            Expr::SubPlan => None,
            Expr::Selector => None,
            Expr::KeepName(_) => first_col_spec(a, n.0 as int),
            Expr::RenameAlias { expr, function } => match out_name(*expr, a, n) {
                Some(base) => Some(apply_transform_spec(function, base)),
                None => None,
            },
            Expr::Field(fname) => Some(fname@),
        }
    } else {
        None
    }
}

/// The primary input of an aggregation on the source side.
pub open spec fn agg_input(agg: AggExpr) -> Expr {
    match agg {
        AggExpr::Min { input, .. } => *input,
        AggExpr::Max { input, .. } => *input,
        AggExpr::Median(input) => *input,
        AggExpr::NUnique(input) => *input,
        AggExpr::First(input) => *input,
        AggExpr::Last(input) => *input,
        AggExpr::Mean(input) => *input,
        AggExpr::Implode(input) => *input,
        AggExpr::Count(input, _) => *input,
        AggExpr::Quantile { expr, .. } => *expr,
        AggExpr::Sum(input) => *input,
        AggExpr::Std(input, _) => *input,
        AggExpr::Var(input, _) => *input,
        AggExpr::AggGroups(input) => *input,
    }
}

/// The lowering relation: `lowered(e, m, ctx, a, n)` holds when the
/// arena `a` holds at `n` the lowered form of the expression `e`
/// under context `ctx`. The flag `m` records whether the position
/// materializes a deferred literal eagerly. Together with
/// [`out_name`], which pins the propagated name, the relation pins
/// the whole reachable subtree that lowering builds.
pub open spec fn lowered(e: Expr, m: bool, ctx: CtxV, a: Seq<AExpr>, n: Node) -> bool
    decreases e, 0nat,
{
    wf_node(a, n.0 as int) && match e {
        Expr::Alias(inner, _) => lowered(*inner, m, ctx, a, n),
        Expr::Column(c) => a[n.0 as int] matches AExpr::Column(c2) && c2@ == c@,
        Expr::Literal(lv) => a[n.0 as int] matches AExpr::Literal(lv2) && lv2 == (if m {
            materialize_spec(lv)
        } else {
            lv
        }),
        Expr::BinaryExpr { left, op, right } => a[n.0 as int] matches AExpr::BinaryExpr {
            left: l,
            op: o,
            right: r,
        } && o == op && lowered(*left, false, ctx, a, l) && lowered(*right, false, ctx, a, r),
        Expr::Cast { expr, dtype, options } => a[n.0 as int] matches AExpr::Cast {
            expr: en,
            dtype: d,
            options: o,
        } && d == dtype && o == options && lowered(*expr, false, ctx, a, en),
        Expr::Sort { expr, options } => a[n.0 as int] matches AExpr::Sort {
            expr: en,
            options: o,
        } && o == options && lowered(*expr, false, ctx, a, en),
        Expr::Gather { expr, idx, returns_scalar } => a[n.0 as int] matches AExpr::Gather {
            expr: en,
            idx: ix,
            returns_scalar: rs,
        } && rs == returns_scalar && lowered(*expr, false, ctx, a, en) && lowered(
            *idx,
            true,
            ctx,
            a,
            ix,
        ),
        Expr::SortBy { expr, by, sort_options } => a[n.0 as int] matches AExpr::SortBy {
            expr: en,
            by: bn,
            sort_options: so,
        } && so == sort_options && lowered(*expr, false, ctx, a, en) && lowered_list(
            by@,
            false,
            ctx,
            a,
            bn@,
        ),
        Expr::Filter { input, by } => a[n.0 as int] matches AExpr::Filter {
            input: inn,
            by: byn,
        } && lowered(*input, false, ctx, a, inn) && lowered(*by, false, ctx, a, byn),
        Expr::Agg(agg) => a[n.0 as int] matches AExpr::Agg(ia) && lowered_agg(agg, ia, ctx, a),
        Expr::Ternary { predicate, truthy, falsy } => a[n.0 as int] matches AExpr::Ternary {
            predicate: p,
            truthy: t,
            falsy: f,
        } && lowered(*predicate, true, ctx, a, p) && lowered(*truthy, false, ctx, a, t) && lowered(
            *falsy,
            false,
            ctx,
            a,
            f,
        ),
        Expr::Function { input, function } => a[n.0 as int] matches AExpr::Function {
            input: irs,
            function: f2,
            options: o,
        } && function_matches(function, f2) && o.check_lengths.0 && o.flags.bits == ROW_SEPARABLE
            | LENGTH_PRESERVING && o.cast_options is None && lowered_irs(input@, ctx, a, irs@),
        Expr::Explode { input, skip_empty } => a[n.0 as int] matches AExpr::Explode {
            expr: en,
            skip_empty: se,
        } && se == skip_empty && lowered(*input, false, ctx, a, en),
        Expr::Window { function, partition_by, order_by, options } => a[n.0 as int]
            matches AExpr::Window {
            function: fnn,
            partition_by: pb,
            order_by: ob,
            options: o,
        } && o == options && lowered(*function, false, ctx, a, fnn) && lowered_list(
            partition_by@,
            true,
            ctx,
            a,
            pb@,
        ) && match order_by {
            Some((e2, so)) => ob matches Some((obn, so2)) && so2 == so && lowered(
                *e2,
                false,
                ctx,
                a,
                obn,
            ),
            None => ob is None,
        },
        Expr::Slice { input, offset, length } => a[n.0 as int] matches AExpr::Slice {
            input: inn,
            offset: off,
            length: len,
        } && lowered(*input, false, ctx, a, inn) && lowered(*offset, true, ctx, a, off) && lowered(
            *length,
            true,
            ctx,
            a,
            len,
        ),
        Expr::Eval { expr, evaluation, variant } => a[n.0 as int] matches AExpr::Eval {
            expr: en,
            evaluation: ev,
            variant: v2,
        } && v2 == variant && lowered(*expr, false, ctx, a, en) && (match dtype_of_spec(
            a,
            en.0 as int,
            ctx.schema,
        ) {
            Some(dt) => match element_dtype_spec(variant, dt) {
                Some(element) => lowered(*evaluation, false, eval_ctx(element), a, ev)
                    && match variant {
                    crate::expr::EvalVariant::List => named_col_spec(a, ev.0 as int) is None,
                    crate::expr::EvalVariant::Cumulative { .. } => is_scalar_spec(
                        a,
                        ev.0 as int,
                    ),
                },
                None => false,
            },
            None => false,
        }),
        Expr::Len => a[n.0 as int] is Len,
        Expr::AnonymousFunction { input, function, output_type, options, fmt_str } => a[n.0 as int]
            matches AExpr::AnonymousFunction {
            input: irs,
            function: f2,
            output_type: ot2,
            options: o2,
            fmt_str: fs2,
        } && f2 == function && ot2 == output_type && o2 == options && fs2 == fmt_str && resolves(
            function.required_column,
            ctx.schema,
        ) && resolves(output_type.required_column, ctx.schema) && lowered_irs(
            input@,
            ctx,
            a,
            irs@,
        ),
        Expr::SubPlan => false,
        Expr::Selector => false,
        Expr::KeepName(inner) => lowered(*inner, false, ctx, a, n) && first_col_spec(
            a,
            n.0 as int,
        ) is Some,
        Expr::RenameAlias { expr, .. } => lowered(*expr, false, ctx, a, n),
        Expr::Field(fname) => ctx.with_fields matches Some((input_node, wf)) && contains_name_spec(
            wf,
            fname@,
        ) && (a[n.0 as int] matches AExpr::Function { input: irs, function: f2, options: o }
            && function_matches_name(fname@, f2) && o.check_lengths.0 && o.flags.bits
            == ROW_SEPARABLE | LENGTH_PRESERVING && o.cast_options is None && irs@.len() == 1
            && irs@[0].node_spec() == input_node && irs@[0].alias_spec() == Some(
            Seq::<char>::empty(),
        )),
    }
}

/// Element-wise lowering of a list of expressions into a list of
/// handles; the entries' names are discarded by their consumers.
pub open spec fn lowered_list(es: Seq<Expr>, m: bool, ctx: CtxV, a: Seq<AExpr>, ns: Seq<Node>) -> bool
    decreases es, 1nat,
{
    if es.len() == 0 {
        ns.len() == 0
    } else {
        ns.len() == es.len() && lowered(es[0], m, ctx, a, ns[0]) && lowered_list(
            es.drop_first(),
            m,
            ctx,
            a,
            ns.drop_first(),
        )
    }
}

/// One entry of a wrapped expression list: the wrapper carries the
/// entry's propagated name as an explicit alias, and its handle is
/// the entry's lowering.
pub open spec fn lowered_ir1(e: Expr, ctx: CtxV, a: Seq<AExpr>, ir: ExprIR) -> bool
    decreases e, 1nat,
{
    lowered(e, false, ctx, a, ir.node_spec()) && ir.alias_spec() == out_name(
        e,
        a,
        ir.node_spec(),
    ) && ir.alias_spec() is Some
}

/// Element-wise lowering of a list of expressions into wrapped
/// [`ExprIR`]s.
pub open spec fn lowered_irs(es: Seq<Expr>, ctx: CtxV, a: Seq<AExpr>, irs: Seq<ExprIR>) -> bool
    decreases es, 2nat,
{
    if es.len() == 0 {
        irs.len() == 0
    } else {
        irs.len() == es.len() && lowered_ir1(es[0], ctx, a, irs[0]) && lowered_irs(
            es.drop_first(),
            ctx,
            a,
            irs.drop_first(),
        )
    }
}

/// The lowered form of one aggregation: the same variant with the
/// same parameters, its input eagerly materialized.
pub open spec fn lowered_agg(agg: AggExpr, ia: IRAggExpr, ctx: CtxV, a: Seq<AExpr>) -> bool
    decreases agg, 1nat,
{
    match agg {
        AggExpr::Min { input, propagate_nans } => ia matches IRAggExpr::Min {
            input: inn,
            propagate_nans: p,
        } && p == propagate_nans && lowered(*input, true, ctx, a, inn),
        AggExpr::Max { input, propagate_nans } => ia matches IRAggExpr::Max {
            input: inn,
            propagate_nans: p,
        } && p == propagate_nans && lowered(*input, true, ctx, a, inn),
        AggExpr::Median(input) => ia matches IRAggExpr::Median(inn) && lowered(
            *input,
            true,
            ctx,
            a,
            inn,
        ),
        AggExpr::NUnique(input) => ia matches IRAggExpr::NUnique(inn) && lowered(
            *input,
            true,
            ctx,
            a,
            inn,
        ),
        AggExpr::First(input) => ia matches IRAggExpr::First(inn) && lowered(
            *input,
            true,
            ctx,
            a,
            inn,
        ),
        AggExpr::Last(input) => ia matches IRAggExpr::Last(inn) && lowered(
            *input,
            true,
            ctx,
            a,
            inn,
        ),
        AggExpr::Mean(input) => ia matches IRAggExpr::Mean(inn) && lowered(
            *input,
            true,
            ctx,
            a,
            inn,
        ),
        AggExpr::Implode(input) => ia matches IRAggExpr::Implode(inn) && lowered(
            *input,
            true,
            ctx,
            a,
            inn,
        ),
        AggExpr::Count(input, include_nulls) => ia matches IRAggExpr::Count(inn, inc) && inc
            == include_nulls && lowered(*input, true, ctx, a, inn),
        AggExpr::Quantile { expr, quantile, method } => ia matches IRAggExpr::Quantile {
            expr: en,
            quantile: qn,
            method: m2,
        } && m2 == method && lowered(*expr, true, ctx, a, en) && lowered(*quantile, true, ctx, a, qn),
        AggExpr::Sum(input) => ia matches IRAggExpr::Sum(inn) && lowered(*input, true, ctx, a, inn),
        AggExpr::Std(input, ddof) => ia matches IRAggExpr::Std(inn, d) && d == ddof && lowered(
            *input,
            true,
            ctx,
            a,
            inn,
        ),
        AggExpr::Var(input, ddof) => ia matches IRAggExpr::Var(inn, d) && d == ddof && lowered(
            *input,
            true,
            ctx,
            a,
            inn,
        ),
        AggExpr::AggGroups(input) => ia matches IRAggExpr::AggGroups(inn) && lowered(
            *input,
            true,
            ctx,
            a,
            inn,
        ),
    }
}

/// Builds [`crate::aexpr::wf_children`] from a per-element bound.
pub proof fn lemma_wf_children_intro(a: Seq<AExpr>, cs: Seq<Node>, n: int)
    requires
        forall|i: int|
            0 <= i < cs.len() ==> (#[trigger] cs[i]).0 < n && wf_node(a, cs[i].0 as int),
    ensures
        crate::aexpr::wf_children(a, cs, n),
    decreases cs.len(),
{
    if cs.len() > 0 {
        assert(cs[0].0 < n && wf_node(a, cs[0].0 as int));
        assert forall|i: int|
            0 <= i < cs.drop_first().len() implies (#[trigger] cs.drop_first()[i]).0 < n
            && wf_node(a, cs.drop_first()[i].0 as int) by {
            assert(cs.drop_first()[i] == cs[i + 1]);
        }
        lemma_wf_children_intro(a, cs.drop_first(), n);
    }
}

/// A lowered node is well-formed, and in particular in bounds.
pub proof fn lemma_lowered_wf(e: Expr, m: bool, ctx: CtxV, a: Seq<AExpr>, n: Node)
    requires
        lowered(e, m, ctx, a, n),
    ensures
        wf_node(a, n.0 as int),
        n.0 < a.len(),
{
}

/// Appending to the arena preserves the lowering relation: a lowered
/// subtree refers only to entries that existed when it was built.
pub proof fn lemma_lowered_prefix(
    e: Expr,
    m: bool,
    ctx: CtxV,
    a: Seq<AExpr>,
    b: Seq<AExpr>,
    n: Node,
)
    requires
        prefix_of(a, b),
        lowered(e, m, ctx, a, n),
    ensures
        lowered(e, m, ctx, b, n),
        out_name(e, b, n) == out_name(e, a, n),
    decreases e, 0nat,
{
    crate::aexpr::lemma_wf_node_prefix(a, b, n.0 as int);
    match e {
        Expr::Alias(inner, _) => {
            lemma_lowered_prefix(*inner, m, ctx, a, b, n);
        },
        Expr::BinaryExpr { left, op: _, right } => {
            match a[n.0 as int] {
                AExpr::BinaryExpr { left: l, op: _, right: r } => {
                    lemma_lowered_prefix(*left, false, ctx, a, b, l);
                    lemma_lowered_prefix(*right, false, ctx, a, b, r);
                },
                _ => {},
            }
        },
        Expr::Cast { expr, .. } => {
            match a[n.0 as int] {
                AExpr::Cast { expr: en, .. } => {
                    lemma_lowered_prefix(*expr, false, ctx, a, b, en);
                },
                _ => {},
            }
        },
        Expr::Sort { expr, .. } => {
            match a[n.0 as int] {
                AExpr::Sort { expr: en, .. } => {
                    lemma_lowered_prefix(*expr, false, ctx, a, b, en);
                },
                _ => {},
            }
        },
        Expr::Gather { expr, idx, .. } => {
            match a[n.0 as int] {
                AExpr::Gather { expr: en, idx: ix, .. } => {
                    lemma_lowered_prefix(*expr, false, ctx, a, b, en);
                    lemma_lowered_prefix(*idx, true, ctx, a, b, ix);
                },
                _ => {},
            }
        },
        Expr::SortBy { expr, by, .. } => {
            match a[n.0 as int] {
                AExpr::SortBy { expr: en, by: bn, .. } => {
                    lemma_lowered_prefix(*expr, false, ctx, a, b, en);
                    lemma_lowered_list_prefix(by@, false, ctx, a, b, bn@);
                },
                _ => {},
            }
        },
        Expr::Filter { input, by } => {
            match a[n.0 as int] {
                AExpr::Filter { input: inn, by: byn } => {
                    lemma_lowered_prefix(*input, false, ctx, a, b, inn);
                    lemma_lowered_prefix(*by, false, ctx, a, b, byn);
                },
                _ => {},
            }
        },
        Expr::Agg(agg) => {
            match a[n.0 as int] {
                AExpr::Agg(ia) => {
                    lemma_lowered_agg_prefix(agg, ia, ctx, a, b);
                },
                _ => {},
            }
        },
        Expr::Ternary { predicate, truthy, falsy } => {
            match a[n.0 as int] {
                AExpr::Ternary { predicate: p, truthy: t, falsy: f } => {
                    lemma_lowered_prefix(*predicate, true, ctx, a, b, p);
                    lemma_lowered_prefix(*truthy, false, ctx, a, b, t);
                    lemma_lowered_prefix(*falsy, false, ctx, a, b, f);
                },
                _ => {},
            }
        },
        Expr::Function { input, .. } => {
            match a[n.0 as int] {
                AExpr::Function { input: irs, .. } => {
                    lemma_lowered_irs_prefix(input@, ctx, a, b, irs@);
                },
                _ => {},
            }
        },
        Expr::Explode { input, .. } => {
            match a[n.0 as int] {
                AExpr::Explode { expr: en, .. } => {
                    lemma_lowered_prefix(*input, false, ctx, a, b, en);
                },
                _ => {},
            }
        },
        Expr::Window { function, partition_by, order_by, .. } => {
            match a[n.0 as int] {
                AExpr::Window { function: fnn, partition_by: pb, order_by: ob, .. } => {
                    lemma_lowered_prefix(*function, false, ctx, a, b, fnn);
                    lemma_lowered_list_prefix(partition_by@, true, ctx, a, b, pb@);
                    match (order_by, ob) {
                        (Some((e2, _)), Some((obn, _))) => {
                            lemma_lowered_prefix(*e2, false, ctx, a, b, obn);
                        },
                        _ => {},
                    }
                },
                _ => {},
            }
        },
        Expr::Slice { input, offset, length } => {
            match a[n.0 as int] {
                AExpr::Slice { input: inn, offset: off, length: len } => {
                    lemma_lowered_prefix(*input, false, ctx, a, b, inn);
                    lemma_lowered_prefix(*offset, true, ctx, a, b, off);
                    lemma_lowered_prefix(*length, true, ctx, a, b, len);
                },
                _ => {},
            }
        },
        Expr::Eval { expr, evaluation, variant } => {
            match a[n.0 as int] {
                AExpr::Eval { expr: en, evaluation: ev, .. } => {
                    lemma_lowered_prefix(*expr, false, ctx, a, b, en);
                    crate::aexpr::lemma_dtype_prefix(a, b, en.0 as int, ctx.schema);
                    match dtype_of_spec(a, en.0 as int, ctx.schema) {
                        Some(dt) => {
                            match element_dtype_spec(variant, dt) {
                                Some(element) => {
                                    lemma_lowered_wf(*evaluation, false, eval_ctx(element), a, ev);
                                    lemma_lowered_prefix(
                                        *evaluation,
                                        false,
                                        eval_ctx(element),
                                        a,
                                        b,
                                        ev,
                                    );
                                    match variant {
                                        crate::expr::EvalVariant::List => {
                                            crate::aexpr::lemma_named_col_prefix(
                                                a,
                                                b,
                                                ev.0 as int,
                                            );
                                        },
                                        crate::expr::EvalVariant::Cumulative { .. } => {
                                            crate::aexpr::lemma_is_scalar_prefix(
                                                a,
                                                b,
                                                ev.0 as int,
                                            );
                                        },
                                    }
                                },
                                None => {},
                            }
                        },
                        None => {},
                    }
                },
                _ => {},
            }
        },
        Expr::AnonymousFunction { input, .. } => {
            match a[n.0 as int] {
                AExpr::AnonymousFunction { input: irs, .. } => {
                    lemma_lowered_irs_prefix(input@, ctx, a, b, irs@);
                },
                _ => {},
            }
        },
        Expr::KeepName(inner) => {
            lemma_lowered_prefix(*inner, false, ctx, a, b, n);
            crate::aexpr::lemma_first_col_prefix(a, b, n.0 as int);
        },
        Expr::RenameAlias { expr, .. } => {
            lemma_lowered_prefix(*expr, false, ctx, a, b, n);
        },
        _ => {},
    }
}

/// [`lemma_lowered_prefix`] over a list of expressions.
pub proof fn lemma_lowered_list_prefix(
    es: Seq<Expr>,
    m: bool,
    ctx: CtxV,
    a: Seq<AExpr>,
    b: Seq<AExpr>,
    ns: Seq<Node>,
)
    requires
        prefix_of(a, b),
        lowered_list(es, m, ctx, a, ns),
    ensures
        lowered_list(es, m, ctx, b, ns),
    decreases es, 1nat,
{
    if es.len() > 0 {
        lemma_lowered_prefix(es[0], m, ctx, a, b, ns[0]);
        lemma_lowered_list_prefix(es.drop_first(), m, ctx, a, b, ns.drop_first());
    }
}

/// [`lemma_lowered_prefix`] over a wrapped expression list.
pub proof fn lemma_lowered_irs_prefix(
    es: Seq<Expr>,
    ctx: CtxV,
    a: Seq<AExpr>,
    b: Seq<AExpr>,
    irs: Seq<ExprIR>,
)
    requires
        prefix_of(a, b),
        lowered_irs(es, ctx, a, irs),
    ensures
        lowered_irs(es, ctx, b, irs),
    decreases es, 2nat,
{
    if es.len() > 0 {
        assert(lowered_ir1(es[0], ctx, a, irs[0]));
        lemma_lowered_prefix(es[0], false, ctx, a, b, irs[0].node_spec());
        lemma_lowered_irs_prefix(es.drop_first(), ctx, a, b, irs.drop_first());
        assert(lowered_ir1(es[0], ctx, b, irs[0]));
    }
}

/// [`lemma_lowered_prefix`] for an aggregation.
pub proof fn lemma_lowered_agg_prefix(
    agg: AggExpr,
    ia: IRAggExpr,
    ctx: CtxV,
    a: Seq<AExpr>,
    b: Seq<AExpr>,
)
    requires
        prefix_of(a, b),
        lowered_agg(agg, ia, ctx, a),
    ensures
        lowered_agg(agg, ia, ctx, b),
        out_name(agg_input(agg), b, ia.input_spec()) == out_name(agg_input(agg), a, ia.input_spec()),
    decreases agg, 1nat,
{
    match agg {
        AggExpr::Quantile { expr, quantile, .. } => {
            match ia {
                IRAggExpr::Quantile { expr: en, quantile: qn, .. } => {
                    lemma_lowered_prefix(*expr, true, ctx, a, b, en);
                    lemma_lowered_prefix(*quantile, true, ctx, a, b, qn);
                },
                _ => {},
            }
        },
        other => {
            lemma_lowered_prefix(agg_input(other), true, ctx, a, b, ia.input_spec());
        },
    }
}

/// Validity of a lowering context against an arena: the
/// enclosing-struct handle, if any, refers to a well-formed node.
/// Handles are only meaningful against the arena that issued them.
pub open spec fn ctx_wf(ctx: CtxV, a: Seq<AExpr>) -> bool {
    match ctx.with_fields {
        Some((n0, _)) => wf_node(a, n0.0 as int),
        None => true,
    }
}

/// Context validity survives appends to the arena.
pub proof fn lemma_ctx_wf_prefix(ctx: CtxV, a: Seq<AExpr>, b: Seq<AExpr>)
    requires
        prefix_of(a, b),
        ctx_wf(ctx, a),
    ensures
        ctx_wf(ctx, b),
{
    match ctx.with_fields {
        Some((n0, _)) => {
            crate::aexpr::lemma_wf_node_prefix(a, b, n0.0 as int);
        },
        None => {},
    }
}

/// Pushing a node whose children are all well-formed entries of the
/// arena extends it by one well-formed node and disturbs nothing.
pub proof fn lemma_push_node(a: Seq<AExpr>, v: AExpr)
    requires
        forall|i: int|
            0 <= i < crate::aexpr::children_spec(v).len() ==> (#[trigger] crate::aexpr::children_spec(
                v,
            )[i]).0 < a.len() && wf_node(a, crate::aexpr::children_spec(v)[i].0 as int),
    ensures
        prefix_of(a, a.push(v)),
        wf_node(a.push(v), a.len() as int),
        a.push(v)[a.len() as int] == v,
{
    let b = a.push(v);
    assert(prefix_of(a, b));
    let cs = crate::aexpr::children_spec(v);
    assert forall|i: int| 0 <= i < cs.len() implies (#[trigger] cs[i]).0 < a.len() as int
        && wf_node(b, cs[i].0 as int) by {
        crate::aexpr::lemma_wf_node_prefix(a, b, cs[i].0 as int);
    }
    lemma_wf_children_intro(b, cs, a.len() as int);
}

/// Extends an element-wise lowered list by one entry.
pub proof fn lemma_lowered_list_snoc(
    es: Seq<Expr>,
    m: bool,
    ctx: CtxV,
    a: Seq<AExpr>,
    ns: Seq<Node>,
    e: Expr,
    n: Node,
)
    requires
        lowered_list(es, m, ctx, a, ns),
        lowered(e, m, ctx, a, n),
    ensures
        lowered_list(es.push(e), m, ctx, a, ns.push(n)),
    decreases es.len(),
{
    if es.len() == 0 {
        assert(es.push(e)[0] == e);
        assert(es.push(e).drop_first() =~= Seq::<Expr>::empty());
        assert(ns.push(n).drop_first() =~= Seq::<Node>::empty());
        assert(lowered_list(Seq::<Expr>::empty(), m, ctx, a, Seq::<Node>::empty()));
    } else {
        assert(es.push(e)[0] == es[0]);
        assert(ns.push(n)[0] == ns[0]);
        assert(es.push(e).drop_first() =~= es.drop_first().push(e));
        assert(ns.push(n).drop_first() =~= ns.drop_first().push(n));
        lemma_lowered_list_snoc(es.drop_first(), m, ctx, a, ns.drop_first(), e, n);
    }
}

/// Extends a lowered wrapped-expression list by one entry.
pub proof fn lemma_lowered_irs_snoc(
    es: Seq<Expr>,
    ctx: CtxV,
    a: Seq<AExpr>,
    irs: Seq<ExprIR>,
    e: Expr,
    ir: ExprIR,
)
    requires
        lowered_irs(es, ctx, a, irs),
        lowered_ir1(e, ctx, a, ir),
    ensures
        lowered_irs(es.push(e), ctx, a, irs.push(ir)),
    decreases es.len(),
{
    if es.len() == 0 {
        assert(es.push(e)[0] == e);
        assert(es.push(e).drop_first() =~= Seq::<Expr>::empty());
        assert(irs.push(ir).drop_first() =~= Seq::<ExprIR>::empty());
        assert(lowered_irs(Seq::<Expr>::empty(), ctx, a, Seq::<ExprIR>::empty()));
    } else {
        assert(es.push(e)[0] == es[0]);
        assert(irs.push(ir)[0] == irs[0]);
        assert(es.push(e).drop_first() =~= es.drop_first().push(e));
        assert(irs.push(ir).drop_first() =~= irs.drop_first().push(ir));
        lemma_lowered_irs_snoc(es.drop_first(), ctx, a, irs.drop_first(), e, ir);
    }
}

/// Each entry of a lowered wrapped-expression list satisfies
/// [`lowered_ir1`].
pub proof fn lemma_lowered_irs_index(es: Seq<Expr>, ctx: CtxV, a: Seq<AExpr>, irs: Seq<ExprIR>, i: int)
    requires
        lowered_irs(es, ctx, a, irs),
        0 <= i < es.len(),
    ensures
        lowered_ir1(es[i], ctx, a, irs[i]),
    decreases i,
{
    if i > 0 {
        lemma_lowered_irs_index(es.drop_first(), ctx, a, irs.drop_first(), i - 1);
        assert(es.drop_first()[i - 1] == es[i]);
        assert(irs.drop_first()[i - 1] == irs[i]);
    }
}

/// A total list is total at every index.
pub proof fn lemma_lower_total_list_index(es: Seq<Expr>, ctx: CtxV, i: int)
    requires
        lower_total_list(es, ctx),
        0 <= i < es.len(),
    ensures
        lower_total(es[i], ctx),
    decreases i,
{
    if i > 0 {
        lemma_lower_total_list_index(es.drop_first(), ctx, i - 1);
        assert(es.drop_first()[i - 1] == es[i]);
    }
}

/// A single-input aggregation relates its input through
/// [`lowered_agg`] at the handle [`IRAggExpr::input_spec`] names.
pub proof fn lemma_lowered_agg_input(agg: AggExpr, ia: IRAggExpr, ctx: CtxV, a: Seq<AExpr>)
    requires
        lowered_agg(agg, ia, ctx, a),
        !(agg is Quantile),
    ensures
        lowered(agg_input(agg), true, ctx, a, ia.input_spec()),
{
}

/// If the scan of one child hits, the scan over the whole child list
/// hits.
pub proof fn lemma_first_col_list_hit(a: Seq<AExpr>, cs: Seq<Node>, n: int, i: int)
    requires
        crate::aexpr::wf_children(a, cs, n),
        0 <= i < cs.len(),
        first_col_spec(a, cs[i].0 as int) is Some,
    ensures
        crate::aexpr::first_col_list(a, cs, n) is Some,
    decreases i,
{
    if i > 0 {
        match first_col_spec(a, cs[0].0 as int) {
            Some(_) => {},
            None => {
                assert(cs.drop_first()[i - 1] == cs[i]);
                lemma_first_col_list_hit(a, cs.drop_first(), n, i - 1);
            },
        }
    }
}

/// Whether the expression tree contains a construct that lowers to a
/// node the keep-name scan resolves: a column reference, a
/// struct-field access, or a named function call (which lowers to a
/// field-by-name node). A keep-name wrapper succeeds exactly when its
/// subtree holds such a source.
pub open spec fn dsl_has_name_source(e: Expr) -> bool
    decreases e, 0nat,
{
    match e {
        Expr::Alias(inner, _) => dsl_has_name_source(*inner),
        Expr::Column(_) => true,
        Expr::Literal(_) => false,
        Expr::BinaryExpr { left, op, right } => dsl_has_name_source(*left)
            || dsl_has_name_source(*right),
        Expr::Cast { expr, .. } => dsl_has_name_source(*expr),
        Expr::Sort { expr, .. } => dsl_has_name_source(*expr),
        Expr::Gather { expr, idx, .. } => dsl_has_name_source(*expr) || dsl_has_name_source(*idx),
        Expr::SortBy { expr, by, .. } => dsl_has_name_source(*expr) || dsl_has_name_source_list(
            by@,
        ),
        Expr::Filter { input, by } => dsl_has_name_source(*input) || dsl_has_name_source(*by),
        Expr::Agg(agg) => match agg {
            AggExpr::Quantile { expr, quantile, .. } => dsl_has_name_source(*expr)
                || dsl_has_name_source(*quantile),
            other => dsl_has_name_source(agg_input(other)),
        },
        Expr::Ternary { predicate, truthy, falsy } => dsl_has_name_source(*predicate)
            || dsl_has_name_source(*truthy) || dsl_has_name_source(*falsy),
        Expr::Function { .. } => true,
        Expr::Explode { input, .. } => dsl_has_name_source(*input),
        Expr::Window { function, partition_by, order_by, .. } => dsl_has_name_source(*function)
            || dsl_has_name_source_list(partition_by@) || match order_by {
            Some((e2, _)) => dsl_has_name_source(*e2),
            None => false,
        },
        Expr::Slice { input, offset, length } => dsl_has_name_source(*input)
            || dsl_has_name_source(*offset) || dsl_has_name_source(*length),
        Expr::Eval { expr, evaluation, .. } => dsl_has_name_source(*expr) || dsl_has_name_source(
            *evaluation,
        ),
        Expr::Len => false,
        Expr::AnonymousFunction { input, .. } => dsl_has_name_source_list(input@),
        Expr::SubPlan => false,
        Expr::Selector => false,
        Expr::KeepName(inner) => dsl_has_name_source(*inner),
        Expr::RenameAlias { expr, .. } => dsl_has_name_source(*expr),
        Expr::Field(_) => true,
    }
}

/// [`dsl_has_name_source`] over a list of expressions.
pub open spec fn dsl_has_name_source_list(es: Seq<Expr>) -> bool
    decreases es, 1nat,
{
    if es.len() == 0 {
        false
    } else {
        dsl_has_name_source(es[0]) || dsl_has_name_source_list(es.drop_first())
    }
}

/// The bridge from the source tree to the arena: when a lowered
/// expression contains a name source, the keep-name scan of its
/// lowered subtree finds one.
pub proof fn lemma_name_source_scan(e: Expr, m: bool, ctx: CtxV, a: Seq<AExpr>, n: Node)
    requires
        lowered(e, m, ctx, a, n),
        dsl_has_name_source(e),
    ensures
        first_col_spec(a, n.0 as int) is Some,
    decreases e, 0nat,
{
    let ni = n.0 as int;
    let cs = crate::aexpr::children_spec(a[ni]);
    assert(crate::aexpr::wf_children(a, cs, ni));
    match e {
        Expr::Alias(inner, _) => {
            lemma_name_source_scan(*inner, m, ctx, a, n);
        },
        Expr::BinaryExpr { left, op: _, right } => {
            match a[ni] {
                AExpr::BinaryExpr { left: l, op: _, right: r } => {
                    assert(cs =~= seq![l, r]);
                    if dsl_has_name_source(*left) {
                        lemma_name_source_scan(*left, false, ctx, a, l);
                        lemma_first_col_list_hit(a, cs, ni, 0);
                    } else {
                        lemma_name_source_scan(*right, false, ctx, a, r);
                        lemma_first_col_list_hit(a, cs, ni, 1);
                    }
                },
                _ => {},
            }
        },
        Expr::Cast { expr, .. } => {
            match a[ni] {
                AExpr::Cast { expr: en, .. } => {
                    assert(cs =~= seq![en]);
                    lemma_name_source_scan(*expr, false, ctx, a, en);
                    lemma_first_col_list_hit(a, cs, ni, 0);
                },
                _ => {},
            }
        },
        Expr::Sort { expr, .. } => {
            match a[ni] {
                AExpr::Sort { expr: en, .. } => {
                    assert(cs =~= seq![en]);
                    lemma_name_source_scan(*expr, false, ctx, a, en);
                    lemma_first_col_list_hit(a, cs, ni, 0);
                },
                _ => {},
            }
        },
        Expr::Gather { expr, idx, .. } => {
            match a[ni] {
                AExpr::Gather { expr: en, idx: ix, .. } => {
                    assert(cs =~= seq![en, ix]);
                    if dsl_has_name_source(*expr) {
                        lemma_name_source_scan(*expr, false, ctx, a, en);
                        lemma_first_col_list_hit(a, cs, ni, 0);
                    } else {
                        lemma_name_source_scan(*idx, true, ctx, a, ix);
                        lemma_first_col_list_hit(a, cs, ni, 1);
                    }
                },
                _ => {},
            }
        },
        Expr::SortBy { expr, by, .. } => {
            match a[ni] {
                AExpr::SortBy { expr: en, by: bn, .. } => {
                    assert(cs =~= seq![en] + bn@);
                    if dsl_has_name_source(*expr) {
                        lemma_name_source_scan(*expr, false, ctx, a, en);
                        lemma_first_col_list_hit(a, cs, ni, 0);
                    } else {
                        lemma_name_source_list_scan(by@, false, ctx, a, bn@);
                        let k = choose|k: int|
                            0 <= k < bn@.len() && first_col_spec(
                                a,
                                (#[trigger] bn@[k]).0 as int,
                            ) is Some;
                        assert(cs[1 + k] == bn@[k]);
                        lemma_first_col_list_hit(a, cs, ni, 1 + k);
                    }
                },
                _ => {},
            }
        },
        Expr::Filter { input, by } => {
            match a[ni] {
                AExpr::Filter { input: inn, by: byn } => {
                    assert(cs =~= seq![inn, byn]);
                    if dsl_has_name_source(*input) {
                        lemma_name_source_scan(*input, false, ctx, a, inn);
                        lemma_first_col_list_hit(a, cs, ni, 0);
                    } else {
                        lemma_name_source_scan(*by, false, ctx, a, byn);
                        lemma_first_col_list_hit(a, cs, ni, 1);
                    }
                },
                _ => {},
            }
        },
        Expr::Agg(agg) => {
            match a[ni] {
                AExpr::Agg(ia) => {
                    assert(lowered_agg(agg, ia, ctx, a));
                    match agg {
                        AggExpr::Quantile { expr, quantile, .. } => {
                            match ia {
                                IRAggExpr::Quantile { expr: en, quantile: qn, .. } => {
                                    assert(cs =~= seq![en, qn]);
                                    if dsl_has_name_source(*expr) {
                                        lemma_name_source_scan(*expr, true, ctx, a, en);
                                        lemma_first_col_list_hit(a, cs, ni, 0);
                                    } else {
                                        lemma_name_source_scan(*quantile, true, ctx, a, qn);
                                        lemma_first_col_list_hit(a, cs, ni, 1);
                                    }
                                },
                                _ => {},
                            }
                        },
                        other => {
                            lemma_lowered_agg_input(other, ia, ctx, a);
                            assert(cs =~= seq![ia.input_spec()]);
                            lemma_name_source_scan(
                                agg_input(other),
                                true,
                                ctx,
                                a,
                                ia.input_spec(),
                            );
                            lemma_first_col_list_hit(a, cs, ni, 0);
                        },
                    }
                },
                _ => {},
            }
        },
        Expr::Ternary { predicate, truthy, falsy } => {
            match a[ni] {
                AExpr::Ternary { predicate: p, truthy: t, falsy: f } => {
                    assert(cs =~= seq![p, t, f]);
                    if dsl_has_name_source(*predicate) {
                        lemma_name_source_scan(*predicate, true, ctx, a, p);
                        lemma_first_col_list_hit(a, cs, ni, 0);
                    } else if dsl_has_name_source(*truthy) {
                        lemma_name_source_scan(*truthy, false, ctx, a, t);
                        lemma_first_col_list_hit(a, cs, ni, 1);
                    } else {
                        lemma_name_source_scan(*falsy, false, ctx, a, f);
                        lemma_first_col_list_hit(a, cs, ni, 2);
                    }
                },
                _ => {},
            }
        },
        Expr::Explode { input, .. } => {
            match a[ni] {
                AExpr::Explode { expr: en, .. } => {
                    assert(cs =~= seq![en]);
                    lemma_name_source_scan(*input, false, ctx, a, en);
                    lemma_first_col_list_hit(a, cs, ni, 0);
                },
                _ => {},
            }
        },
        Expr::Window { function, partition_by, order_by, .. } => {
            match a[ni] {
                AExpr::Window { function: fnn, partition_by: pb, order_by: ob, .. } => {
                    if dsl_has_name_source(*function) {
                        lemma_name_source_scan(*function, false, ctx, a, fnn);
                        assert(cs[0] == fnn);
                        lemma_first_col_list_hit(a, cs, ni, 0);
                    } else if dsl_has_name_source_list(partition_by@) {
                        lemma_name_source_list_scan(partition_by@, true, ctx, a, pb@);
                        let k = choose|k: int|
                            0 <= k < pb@.len() && first_col_spec(
                                a,
                                (#[trigger] pb@[k]).0 as int,
                            ) is Some;
                        assert(cs[1 + k] == pb@[k]);
                        lemma_first_col_list_hit(a, cs, ni, 1 + k);
                    } else {
                        match (order_by, ob) {
                            (Some((e2, _)), Some((obn, _))) => {
                                lemma_name_source_scan(*e2, false, ctx, a, obn);
                                assert(cs[1 + pb@.len() as int] == obn);
                                lemma_first_col_list_hit(a, cs, ni, 1 + pb@.len() as int);
                            },
                            _ => {},
                        }
                    }
                },
                _ => {},
            }
        },
        Expr::Slice { input, offset, length } => {
            match a[ni] {
                AExpr::Slice { input: inn, offset: off, length: len } => {
                    assert(cs =~= seq![inn, off, len]);
                    if dsl_has_name_source(*input) {
                        lemma_name_source_scan(*input, false, ctx, a, inn);
                        lemma_first_col_list_hit(a, cs, ni, 0);
                    } else if dsl_has_name_source(*offset) {
                        lemma_name_source_scan(*offset, true, ctx, a, off);
                        lemma_first_col_list_hit(a, cs, ni, 1);
                    } else {
                        lemma_name_source_scan(*length, true, ctx, a, len);
                        lemma_first_col_list_hit(a, cs, ni, 2);
                    }
                },
                _ => {},
            }
        },
        Expr::Eval { expr, evaluation, variant } => {
            match a[ni] {
                AExpr::Eval { expr: en, evaluation: ev, .. } => {
                    assert(cs =~= seq![en, ev]);
                    if dsl_has_name_source(*expr) {
                        lemma_name_source_scan(*expr, false, ctx, a, en);
                        lemma_first_col_list_hit(a, cs, ni, 0);
                    } else {
                        match dtype_of_spec(a, en.0 as int, ctx.schema) {
                            Some(dt) => {
                                match element_dtype_spec(variant, dt) {
                                    Some(element) => {
                                        lemma_name_source_scan(
                                            *evaluation,
                                            false,
                                            eval_ctx(element),
                                            a,
                                            ev,
                                        );
                                        lemma_first_col_list_hit(a, cs, ni, 1);
                                    },
                                    None => {},
                                }
                            },
                            None => {},
                        }
                    }
                },
                _ => {},
            }
        },
        Expr::AnonymousFunction { input, .. } => {
            match a[ni] {
                AExpr::AnonymousFunction { input: irs, .. } => {
                    lemma_name_source_irs_scan(input@, ctx, a, irs@);
                    let k = choose|k: int|
                        0 <= k < irs@.len() && first_col_spec(
                            a,
                            (#[trigger] irs@[k]).node_spec().0 as int,
                        ) is Some;
                    assert(cs[k] == irs@[k].node_spec());
                    lemma_first_col_list_hit(a, cs, ni, k);
                },
                _ => {},
            }
        },
        Expr::KeepName(inner) => {
            lemma_name_source_scan(*inner, false, ctx, a, n);
        },
        Expr::RenameAlias { expr, .. } => {
            lemma_name_source_scan(*expr, false, ctx, a, n);
        },
        _ => {},
    }
}

/// [`lemma_name_source_scan`] over a list of expressions: some entry's
/// lowered subtree has a scan hit.
pub proof fn lemma_name_source_list_scan(
    es: Seq<Expr>,
    m: bool,
    ctx: CtxV,
    a: Seq<AExpr>,
    ns: Seq<Node>,
)
    requires
        lowered_list(es, m, ctx, a, ns),
        dsl_has_name_source_list(es),
    ensures
        exists|k: int|
            0 <= k < ns.len() && first_col_spec(a, (#[trigger] ns[k]).0 as int) is Some,
    decreases es, 1nat,
{
    if dsl_has_name_source(es[0]) {
        lemma_name_source_scan(es[0], m, ctx, a, ns[0]);
        assert(first_col_spec(a, ns[0].0 as int) is Some);
    } else {
        lemma_name_source_list_scan(es.drop_first(), m, ctx, a, ns.drop_first());
        let k = choose|k: int|
            0 <= k < ns.drop_first().len() && first_col_spec(
                a,
                (#[trigger] ns.drop_first()[k]).0 as int,
            ) is Some;
        assert(ns[k + 1] == ns.drop_first()[k]);
        assert(first_col_spec(a, ns[k + 1].0 as int) is Some);
    }
}

/// [`lemma_name_source_scan`] over a wrapped expression list.
pub proof fn lemma_name_source_irs_scan(es: Seq<Expr>, ctx: CtxV, a: Seq<AExpr>, irs: Seq<ExprIR>)
    requires
        lowered_irs(es, ctx, a, irs),
        dsl_has_name_source_list(es),
    ensures
        exists|k: int|
            0 <= k < irs.len() && first_col_spec(
                a,
                (#[trigger] irs[k]).node_spec().0 as int,
            ) is Some,
    decreases es, 2nat,
{
    if dsl_has_name_source(es[0]) {
        assert(lowered_ir1(es[0], ctx, a, irs[0]));
        lemma_name_source_scan(es[0], false, ctx, a, irs[0].node_spec());
        assert(first_col_spec(a, irs[0].node_spec().0 as int) is Some);
    } else {
        lemma_name_source_irs_scan(es.drop_first(), ctx, a, irs.drop_first());
        let k = choose|k: int|
            0 <= k < irs.drop_first().len() && first_col_spec(
                a,
                (#[trigger] irs.drop_first()[k]).node_spec().0 as int,
            ) is Some;
        assert(irs[k + 1] == irs.drop_first()[k]);
        assert(first_col_spec(a, irs[k + 1].node_spec().0 as int) is Some);
    }
}

/// The type the lowering of `e` gets, computed over the source tree:
/// the mirror of [`dtype_of_spec`] before lowering. The flag `m`
/// tells whether the position materializes a deferred literal, which
/// decides the literal's type.
pub open spec fn dsl_dtype(e: Expr, m: bool, s: SchemaV) -> Option<crate::dtypes::DataType>
    decreases e, 0nat,
{
    match e {
        Expr::Alias(inner, _) => dsl_dtype(*inner, m, s),
        Expr::Column(c) => crate::dtypes::lookup_spec(s, c@),
        Expr::Literal(lv) => Some(
            crate::expr::literal_dtype_spec(
                if m {
                    materialize_spec(lv)
                } else {
                    lv
                },
            ),
        ),
        Expr::BinaryExpr { left, op, right } => if op.is_comparison_spec() {
            Some(crate::dtypes::DataType::Boolean)
        } else {
            match (dsl_dtype(*left, false, s), dsl_dtype(*right, false, s)) {
                (Some(l), Some(r)) => crate::dtypes::supertype_spec(l, r),
                _ => None,
            }
        },
        Expr::Cast { dtype, .. } => Some(dtype),
        Expr::Sort { expr, .. } => dsl_dtype(*expr, false, s),
        Expr::Gather { expr, .. } => dsl_dtype(*expr, false, s),
        Expr::SortBy { expr, .. } => dsl_dtype(*expr, false, s),
        Expr::Filter { input, .. } => dsl_dtype(*input, false, s),
        Expr::Explode { input, .. } => match dsl_dtype(*input, false, s) {
            Some(crate::dtypes::DataType::List(inner)) => Some(*inner),
            other => other,
        },
        Expr::Agg(agg) => dsl_agg_dtype(agg, s),
        Expr::Ternary { predicate: _, truthy, falsy } => match (
            dsl_dtype(*truthy, false, s),
            dsl_dtype(*falsy, false, s),
        ) {
            (Some(t), Some(f)) => crate::dtypes::supertype_spec(t, f),
            _ => None,
        },
        Expr::Function { .. } => None,
        Expr::Window { function, .. } => dsl_dtype(*function, false, s),
        Expr::Slice { input, .. } => dsl_dtype(*input, false, s),
        Expr::Eval { expr, evaluation, variant } => match dsl_dtype(*expr, false, s) {
            Some(dt) => match element_dtype_spec(variant, dt) {
                Some(element) => {
                    let evd = dsl_dtype(
                        *evaluation,
                        false,
                        seq![(Seq::<char>::empty(), element)],
                    );
                    match variant {
                        crate::expr::EvalVariant::List => match evd {
                            Some(ev) => Some(crate::dtypes::DataType::List(Box::new(ev))),
                            None => None,
                        },
                        crate::expr::EvalVariant::Cumulative { .. } => evd,
                    }
                },
                None => None,
            },
            None => None,
        },
        Expr::Len => Some(crate::dtypes::DataType::UInt32),
        Expr::AnonymousFunction { output_type, .. } => Some(output_type.dtype),
        Expr::SubPlan => None,
        Expr::Selector => None,
        Expr::KeepName(inner) => dsl_dtype(*inner, false, s),
        Expr::RenameAlias { expr, .. } => dsl_dtype(*expr, false, s),
        Expr::Field(_) => None,
    }
}

/// [`dsl_dtype`] for an aggregation; its input is materialized.
pub open spec fn dsl_agg_dtype(agg: AggExpr, s: SchemaV) -> Option<crate::dtypes::DataType>
    decreases agg, 1nat,
{
    match agg {
        AggExpr::Mean(_) | AggExpr::Median(_) | AggExpr::Quantile { .. } | AggExpr::Std(..)
            | AggExpr::Var(..) => match dsl_dtype(agg_input(agg), true, s) {
            Some(dt) => Some(crate::aexpr::float_agg_dtype(dt)),
            None => None,
        },
        AggExpr::NUnique(_) | AggExpr::Count(..) => Some(crate::dtypes::DataType::UInt32),
        AggExpr::Implode(_) => match dsl_dtype(agg_input(agg), true, s) {
            Some(dt) => Some(crate::dtypes::DataType::List(Box::new(dt))),
            None => None,
        },
        AggExpr::AggGroups(_) => Some(
            crate::dtypes::DataType::List(Box::new(crate::dtypes::DataType::UInt32)),
        ),
        other => dsl_dtype(agg_input(other), true, s),
    }
}

/// Whether the lowering of `e` produces a scalar, computed over the
/// source tree: the mirror of [`is_scalar_spec`] before lowering.
pub open spec fn dsl_is_scalar(e: Expr) -> bool
    decreases e,
{
    match e {
        Expr::Alias(inner, _) => dsl_is_scalar(*inner),
        Expr::Literal(_) => true,
        Expr::Len => true,
        Expr::Agg(_) => true,
        Expr::Cast { expr, .. } => dsl_is_scalar(*expr),
        Expr::BinaryExpr { left, op: _, right } => dsl_is_scalar(*left) && dsl_is_scalar(*right),
        Expr::Ternary { predicate, truthy, falsy } => dsl_is_scalar(*predicate) && dsl_is_scalar(
            *truthy,
        ) && dsl_is_scalar(*falsy),
        Expr::Gather { returns_scalar, .. } => returns_scalar,
        Expr::AnonymousFunction { options, .. } => crate::options::has_flags(
            options.flags.bits,
            crate::options::RETURNS_SCALAR,
        ),
        Expr::Function { .. } => false,
        Expr::KeepName(inner) => dsl_is_scalar(*inner),
        Expr::RenameAlias { expr, .. } => dsl_is_scalar(*expr),
        _ => false,
    }
}

/// Whether the expression tree references a column with a non-empty
/// name: the mirror of the named-column scan before lowering, for
/// trees lowered outside any struct scope.
pub open spec fn dsl_has_named_col(e: Expr) -> bool
    decreases e, 0nat,
{
    match e {
        Expr::Alias(inner, _) => dsl_has_named_col(*inner),
        Expr::Column(c) => c@.len() > 0,
        Expr::Literal(_) => false,
        Expr::BinaryExpr { left, op: _, right } => dsl_has_named_col(*left) || dsl_has_named_col(
            *right,
        ),
        Expr::Cast { expr, .. } => dsl_has_named_col(*expr),
        Expr::Sort { expr, .. } => dsl_has_named_col(*expr),
        Expr::Gather { expr, idx, .. } => dsl_has_named_col(*expr) || dsl_has_named_col(*idx),
        Expr::SortBy { expr, by, .. } => dsl_has_named_col(*expr) || dsl_has_named_col_list(by@),
        Expr::Filter { input, by } => dsl_has_named_col(*input) || dsl_has_named_col(*by),
        Expr::Agg(agg) => match agg {
            AggExpr::Quantile { expr, quantile, .. } => dsl_has_named_col(*expr)
                || dsl_has_named_col(*quantile),
            other => dsl_has_named_col(agg_input(other)),
        },
        Expr::Ternary { predicate, truthy, falsy } => dsl_has_named_col(*predicate)
            || dsl_has_named_col(*truthy) || dsl_has_named_col(*falsy),
        Expr::Function { input, .. } => dsl_has_named_col_list(input@),
        Expr::Explode { input, .. } => dsl_has_named_col(*input),
        Expr::Window { function, partition_by, order_by, .. } => dsl_has_named_col(*function)
            || dsl_has_named_col_list(partition_by@) || match order_by {
            Some((e2, _)) => dsl_has_named_col(*e2),
            None => false,
        },
        Expr::Slice { input, offset, length } => dsl_has_named_col(*input) || dsl_has_named_col(
            *offset,
        ) || dsl_has_named_col(*length),
        Expr::Eval { expr, evaluation, .. } => dsl_has_named_col(*expr) || dsl_has_named_col(
            *evaluation,
        ),
        Expr::Len => false,
        Expr::AnonymousFunction { input, .. } => dsl_has_named_col_list(input@),
        Expr::SubPlan => false,
        Expr::Selector => false,
        Expr::KeepName(inner) => dsl_has_named_col(*inner),
        Expr::RenameAlias { expr, .. } => dsl_has_named_col(*expr),
        Expr::Field(_) => false,
    }
}

/// [`dsl_has_named_col`] over a list of expressions.
pub open spec fn dsl_has_named_col_list(es: Seq<Expr>) -> bool
    decreases es, 1nat,
{
    if es.len() == 0 {
        false
    } else {
        dsl_has_named_col(es[0]) || dsl_has_named_col_list(es.drop_first())
    }
}

/// The bridge for types: the type inferred over the lowered arena is
/// the type computed over the source tree.
pub proof fn lemma_dtype_bridge(e: Expr, m: bool, ctx: CtxV, a: Seq<AExpr>, n: Node)
    requires
        lowered(e, m, ctx, a, n),
    ensures
        dtype_of_spec(a, n.0 as int, ctx.schema) == dsl_dtype(e, m, ctx.schema),
    decreases e, 0nat,
{
    let ni = n.0 as int;
    let s = ctx.schema;
    let cs = crate::aexpr::children_spec(a[ni]);
    assert(crate::aexpr::wf_children(a, cs, ni));
    match e {
        Expr::Alias(inner, _) => {
            lemma_dtype_bridge(*inner, m, ctx, a, n);
        },
        Expr::BinaryExpr { left, op: _, right } => {
            match a[ni] {
                AExpr::BinaryExpr { left: l, op: _, right: r } => {
                    assert(cs =~= seq![l, r]);
                    crate::aexpr::lemma_wf_children_index(a, cs, ni, 0);
                    crate::aexpr::lemma_wf_children_index(a, cs, ni, 1);
                    lemma_dtype_bridge(*left, false, ctx, a, l);
                    lemma_dtype_bridge(*right, false, ctx, a, r);
                },
                _ => {},
            }
        },
        Expr::Cast { .. } => {},
        Expr::Sort { expr, .. } => {
            match a[ni] {
                AExpr::Sort { expr: en, .. } => {
                    assert(cs =~= seq![en]);
                    crate::aexpr::lemma_wf_children_index(a, cs, ni, 0);
                    lemma_dtype_bridge(*expr, false, ctx, a, en);
                },
                _ => {},
            }
        },
        Expr::Gather { expr, .. } => {
            match a[ni] {
                AExpr::Gather { expr: en, idx: ix, .. } => {
                    assert(cs =~= seq![en, ix]);
                    crate::aexpr::lemma_wf_children_index(a, cs, ni, 0);
                    lemma_dtype_bridge(*expr, false, ctx, a, en);
                },
                _ => {},
            }
        },
        Expr::SortBy { expr, .. } => {
            match a[ni] {
                AExpr::SortBy { expr: en, by: bn, .. } => {
                    assert(cs =~= seq![en] + bn@);
                    crate::aexpr::lemma_wf_children_index(a, cs, ni, 0);
                    lemma_dtype_bridge(*expr, false, ctx, a, en);
                },
                _ => {},
            }
        },
        Expr::Filter { input, .. } => {
            match a[ni] {
                AExpr::Filter { input: inn, .. } => {
                    assert(cs =~= seq![inn, a[ni]->Filter_by]);
                    crate::aexpr::lemma_wf_children_index(a, cs, ni, 0);
                    lemma_dtype_bridge(*input, false, ctx, a, inn);
                },
                _ => {},
            }
        },
        Expr::Explode { input, .. } => {
            match a[ni] {
                AExpr::Explode { expr: en, .. } => {
                    assert(cs =~= seq![en]);
                    crate::aexpr::lemma_wf_children_index(a, cs, ni, 0);
                    lemma_dtype_bridge(*input, false, ctx, a, en);
                },
                _ => {},
            }
        },
        Expr::Agg(agg) => {
            match a[ni] {
                AExpr::Agg(ia) => {
                    assert(lowered_agg(agg, ia, ctx, a));
                    match agg {
                        AggExpr::Quantile { expr, .. } => {
                            match ia {
                                IRAggExpr::Quantile { expr: en, quantile: qn, .. } => {
                                    assert(cs =~= seq![en, qn]);
                                    crate::aexpr::lemma_wf_children_index(a, cs, ni, 0);
                                    lemma_dtype_bridge(*expr, true, ctx, a, en);
                                },
                                _ => {},
                            }
                        },
                        other => {
                            lemma_lowered_agg_input(other, ia, ctx, a);
                            assert(cs =~= seq![ia.input_spec()]);
                            crate::aexpr::lemma_wf_children_index(a, cs, ni, 0);
                            lemma_dtype_bridge(agg_input(other), true, ctx, a, ia.input_spec());
                        },
                    }
                    assert(dtype_of_spec(a, ni, s) == dsl_agg_dtype(agg, s));
                },
                _ => {},
            }
        },
        Expr::Ternary { predicate: _, truthy, falsy } => {
            match a[ni] {
                AExpr::Ternary { predicate: p, truthy: t, falsy: f } => {
                    assert(cs =~= seq![p, t, f]);
                    crate::aexpr::lemma_wf_children_index(a, cs, ni, 1);
                    crate::aexpr::lemma_wf_children_index(a, cs, ni, 2);
                    lemma_dtype_bridge(*truthy, false, ctx, a, t);
                    lemma_dtype_bridge(*falsy, false, ctx, a, f);
                },
                _ => {},
            }
        },
        Expr::Window { function, .. } => {
            match a[ni] {
                AExpr::Window { function: fnn, .. } => {
                    assert(cs[0] == fnn);
                    crate::aexpr::lemma_wf_children_index(a, cs, ni, 0);
                    lemma_dtype_bridge(*function, false, ctx, a, fnn);
                },
                _ => {},
            }
        },
        Expr::Slice { input, .. } => {
            match a[ni] {
                AExpr::Slice { input: inn, offset: off, length: len } => {
                    assert(cs =~= seq![inn, off, len]);
                    crate::aexpr::lemma_wf_children_index(a, cs, ni, 0);
                    lemma_dtype_bridge(*input, false, ctx, a, inn);
                },
                _ => {},
            }
        },
        Expr::Eval { expr, evaluation, variant } => {
            match a[ni] {
                AExpr::Eval { expr: en, evaluation: ev, .. } => {
                    assert(cs =~= seq![en, ev]);
                    crate::aexpr::lemma_wf_children_index(a, cs, ni, 0);
                    crate::aexpr::lemma_wf_children_index(a, cs, ni, 1);
                    lemma_dtype_bridge(*expr, false, ctx, a, en);
                    match dtype_of_spec(a, en.0 as int, s) {
                        Some(dt) => {
                            match element_dtype_spec(variant, dt) {
                                Some(element) => {
                                    lemma_dtype_bridge(
                                        *evaluation,
                                        false,
                                        eval_ctx(element),
                                        a,
                                        ev,
                                    );
                                },
                                None => {},
                            }
                        },
                        None => {},
                    }
                },
                _ => {},
            }
        },
        Expr::KeepName(inner) => {
            lemma_dtype_bridge(*inner, false, ctx, a, n);
        },
        Expr::RenameAlias { expr, .. } => {
            lemma_dtype_bridge(*expr, false, ctx, a, n);
        },
        _ => {},
    }
}

/// The bridge for scalarness: the lowered subtree is scalar exactly
/// when the source tree is.
pub proof fn lemma_scalar_bridge(e: Expr, m: bool, ctx: CtxV, a: Seq<AExpr>, n: Node)
    requires
        lowered(e, m, ctx, a, n),
    ensures
        is_scalar_spec(a, n.0 as int) == dsl_is_scalar(e),
    decreases e, 0nat,
{
    let ni = n.0 as int;
    let cs = crate::aexpr::children_spec(a[ni]);
    assert(crate::aexpr::wf_children(a, cs, ni));
    match e {
        Expr::Alias(inner, _) => {
            lemma_scalar_bridge(*inner, m, ctx, a, n);
        },
        Expr::Cast { expr, .. } => {
            match a[ni] {
                AExpr::Cast { expr: en, .. } => {
                    assert(cs =~= seq![en]);
                    crate::aexpr::lemma_wf_children_index(a, cs, ni, 0);
                    lemma_scalar_bridge(*expr, false, ctx, a, en);
                },
                _ => {},
            }
        },
        Expr::BinaryExpr { left, op: _, right } => {
            match a[ni] {
                AExpr::BinaryExpr { left: l, op: _, right: r } => {
                    assert(cs =~= seq![l, r]);
                    crate::aexpr::lemma_wf_children_index(a, cs, ni, 0);
                    crate::aexpr::lemma_wf_children_index(a, cs, ni, 1);
                    lemma_scalar_bridge(*left, false, ctx, a, l);
                    lemma_scalar_bridge(*right, false, ctx, a, r);
                },
                _ => {},
            }
        },
        Expr::Ternary { predicate, truthy, falsy } => {
            match a[ni] {
                AExpr::Ternary { predicate: p, truthy: t, falsy: f } => {
                    assert(cs =~= seq![p, t, f]);
                    crate::aexpr::lemma_wf_children_index(a, cs, ni, 0);
                    crate::aexpr::lemma_wf_children_index(a, cs, ni, 1);
                    crate::aexpr::lemma_wf_children_index(a, cs, ni, 2);
                    lemma_scalar_bridge(*predicate, true, ctx, a, p);
                    lemma_scalar_bridge(*truthy, false, ctx, a, t);
                    lemma_scalar_bridge(*falsy, false, ctx, a, f);
                },
                _ => {},
            }
        },
        Expr::Function { .. } => {
            match a[ni] {
                AExpr::Function { options, .. } => {
                    assert(!crate::options::has_flags(
                        crate::options::ROW_SEPARABLE | crate::options::LENGTH_PRESERVING,
                        crate::options::RETURNS_SCALAR,
                    )) by (bit_vector);
                },
                _ => {},
            }
        },
        Expr::KeepName(inner) => {
            lemma_scalar_bridge(*inner, false, ctx, a, n);
        },
        Expr::RenameAlias { expr, .. } => {
            lemma_scalar_bridge(*expr, false, ctx, a, n);
        },
        Expr::Field(fname) => {
            match a[ni] {
                AExpr::Function { options, .. } => {
                    assert(!crate::options::has_flags(
                        crate::options::ROW_SEPARABLE | crate::options::LENGTH_PRESERVING,
                        crate::options::RETURNS_SCALAR,
                    )) by (bit_vector);
                },
                _ => {},
            }
        },
        _ => {},
    }
}

/// If every element of a child list is in bounds, appending one more
/// in-bounds child distributes over the named-column scan.
pub proof fn lemma_named_col_list_snoc(a: Seq<AExpr>, xs: Seq<Node>, y: Node, n: int)
    requires
        forall|i: int| 0 <= i < xs.len() ==> (#[trigger] xs[i]).0 < n,
        y.0 < n,
    ensures
        (crate::aexpr::named_col_list(a, xs.push(y), n) is Some) == ((crate::aexpr::named_col_list(
            a,
            xs,
            n,
        ) is Some) || (named_col_spec(a, y.0 as int) is Some)),
    decreases xs.len(),
{
    if xs.len() == 0 {
        assert(xs.push(y)[0] == y);
        assert(xs.push(y).drop_first() =~= Seq::<Node>::empty());
        assert(crate::aexpr::named_col_list(a, Seq::<Node>::empty(), n) is None);
        assert(crate::aexpr::named_col_list(a, xs, n) is None);
    } else {
        assert(xs.push(y)[0] == xs[0]);
        assert(xs.push(y).drop_first() =~= xs.drop_first().push(y));
        assert(forall|i: int|
            0 <= i < xs.drop_first().len() ==> (#[trigger] xs.drop_first()[i]).0 < n && xs
                .drop_first()[i] == xs[i + 1]);
        lemma_named_col_list_snoc(a, xs.drop_first(), y, n);
    }
}

/// The bridge for the named-column check, for trees lowered outside
/// any struct scope: the scan of the lowered subtree hits exactly
/// when the source tree references a column with a non-empty name.
pub proof fn lemma_named_bridge(e: Expr, m: bool, ctx: CtxV, a: Seq<AExpr>, n: Node)
    requires
        lowered(e, m, ctx, a, n),
        ctx.with_fields is None,
    ensures
        (named_col_spec(a, n.0 as int) is Some) == dsl_has_named_col(e),
    decreases e, 0nat,
{
    let ni = n.0 as int;
    let cs = crate::aexpr::children_spec(a[ni]);
    assert(crate::aexpr::wf_children(a, cs, ni));
    assert forall|i: int| 0 <= i < cs.len() implies (#[trigger] cs[i]).0 < ni by {
        crate::aexpr::lemma_wf_children_index(a, cs, ni, i);
    }
    match e {
        Expr::Alias(inner, _) => {
            lemma_named_bridge(*inner, m, ctx, a, n);
        },
        Expr::Column(_) => {
            assert(cs =~= Seq::<Node>::empty());
        },
        Expr::BinaryExpr { left, op: _, right } => {
            match a[ni] {
                AExpr::BinaryExpr { left: l, op: _, right: r } => {
                    lemma_named_bridge(*left, false, ctx, a, l);
                    lemma_named_bridge(*right, false, ctx, a, r);
                    assert(cs =~= Seq::<Node>::empty().push(l).push(r));
                    lemma_named_col_list_snoc(a, Seq::<Node>::empty().push(l), r, ni);
                    lemma_named_col_list_snoc(a, Seq::<Node>::empty(), l, ni);
                },
                _ => {},
            }
        },
        Expr::Cast { expr, .. } => {
            match a[ni] {
                AExpr::Cast { expr: en, .. } => {
                    lemma_named_bridge(*expr, false, ctx, a, en);
                    assert(cs =~= Seq::<Node>::empty().push(en));
                    lemma_named_col_list_snoc(a, Seq::<Node>::empty(), en, ni);
                },
                _ => {},
            }
        },
        Expr::Sort { expr, .. } => {
            match a[ni] {
                AExpr::Sort { expr: en, .. } => {
                    lemma_named_bridge(*expr, false, ctx, a, en);
                    assert(cs =~= Seq::<Node>::empty().push(en));
                    lemma_named_col_list_snoc(a, Seq::<Node>::empty(), en, ni);
                },
                _ => {},
            }
        },
        Expr::Gather { expr, idx, .. } => {
            match a[ni] {
                AExpr::Gather { expr: en, idx: ix, .. } => {
                    lemma_named_bridge(*expr, false, ctx, a, en);
                    lemma_named_bridge(*idx, true, ctx, a, ix);
                    assert(cs =~= Seq::<Node>::empty().push(en).push(ix));
                    lemma_named_col_list_snoc(a, Seq::<Node>::empty().push(en), ix, ni);
                    lemma_named_col_list_snoc(a, Seq::<Node>::empty(), en, ni);
                },
                _ => {},
            }
        },
        Expr::SortBy { expr, by, .. } => {
            match a[ni] {
                AExpr::SortBy { expr: en, by: bn, .. } => {
                    lemma_named_bridge(*expr, false, ctx, a, en);
                    assert(cs =~= seq![en] + bn@);
                    assert(cs[0] == en);
                    assert(cs.drop_first() =~= bn@);
                    assert forall|i: int| 0 <= i < bn@.len() implies (#[trigger] bn@[i]).0
                        < ni by {
                        assert(bn@[i] == cs[i + 1]);
                    }
                    lemma_named_list_bridge(by@, false, ctx, a, bn@, ni);
                },
                _ => {},
            }
        },
        Expr::Filter { input, by } => {
            match a[ni] {
                AExpr::Filter { input: inn, by: byn } => {
                    lemma_named_bridge(*input, false, ctx, a, inn);
                    lemma_named_bridge(*by, false, ctx, a, byn);
                    assert(cs =~= Seq::<Node>::empty().push(inn).push(byn));
                    lemma_named_col_list_snoc(a, Seq::<Node>::empty().push(inn), byn, ni);
                    lemma_named_col_list_snoc(a, Seq::<Node>::empty(), inn, ni);
                },
                _ => {},
            }
        },
        Expr::Agg(agg) => {
            match a[ni] {
                AExpr::Agg(ia) => {
                    assert(lowered_agg(agg, ia, ctx, a));
                    match agg {
                        AggExpr::Quantile { expr, quantile, .. } => {
                            match ia {
                                IRAggExpr::Quantile { expr: en, quantile: qn, .. } => {
                                    lemma_named_bridge(*expr, true, ctx, a, en);
                                    lemma_named_bridge(*quantile, true, ctx, a, qn);
                                    assert(cs =~= Seq::<Node>::empty().push(en).push(qn));
                                    lemma_named_col_list_snoc(
                                        a,
                                        Seq::<Node>::empty().push(en),
                                        qn,
                                        ni,
                                    );
                                    lemma_named_col_list_snoc(a, Seq::<Node>::empty(), en, ni);
                                },
                                _ => {},
                            }
                        },
                        other => {
                            lemma_lowered_agg_input(other, ia, ctx, a);
                            lemma_named_bridge(agg_input(other), true, ctx, a, ia.input_spec());
                            assert(cs =~= Seq::<Node>::empty().push(ia.input_spec()));
                            lemma_named_col_list_snoc(
                                a,
                                Seq::<Node>::empty(),
                                ia.input_spec(),
                                ni,
                            );
                        },
                    }
                },
                _ => {},
            }
        },
        Expr::Ternary { predicate, truthy, falsy } => {
            match a[ni] {
                AExpr::Ternary { predicate: p, truthy: t, falsy: f } => {
                    lemma_named_bridge(*predicate, true, ctx, a, p);
                    lemma_named_bridge(*truthy, false, ctx, a, t);
                    lemma_named_bridge(*falsy, false, ctx, a, f);
                    assert(cs =~= Seq::<Node>::empty().push(p).push(t).push(f));
                    lemma_named_col_list_snoc(a, Seq::<Node>::empty().push(p).push(t), f, ni);
                    lemma_named_col_list_snoc(a, Seq::<Node>::empty().push(p), t, ni);
                    lemma_named_col_list_snoc(a, Seq::<Node>::empty(), p, ni);
                },
                _ => {},
            }
        },
        Expr::Function { input, .. } => {
            match a[ni] {
                AExpr::Function { input: irs, .. } => {
                    assert(cs =~= irs@.map_values(|ir: ExprIR| ir.node_spec()));
                    lemma_named_irs_bridge(input@, ctx, a, irs@, cs, ni);
                },
                _ => {},
            }
        },
        Expr::Explode { input, .. } => {
            match a[ni] {
                AExpr::Explode { expr: en, .. } => {
                    lemma_named_bridge(*input, false, ctx, a, en);
                    assert(cs =~= Seq::<Node>::empty().push(en));
                    lemma_named_col_list_snoc(a, Seq::<Node>::empty(), en, ni);
                },
                _ => {},
            }
        },
        Expr::Window { function, partition_by, order_by, .. } => {
            match a[ni] {
                AExpr::Window { function: fnn, partition_by: pb, order_by: ob, .. } => {
                    lemma_named_bridge(*function, false, ctx, a, fnn);
                    let base = seq![fnn] + pb@;
                    assert(base[0] == fnn);
                    assert(base.drop_first() =~= pb@);
                    match (order_by, ob) {
                        (Some((e2, _)), Some((obn, _))) => {
                            assert(cs =~= base.push(obn));
                            assert forall|i: int| 0 <= i < base.len() implies (
                            #[trigger] base[i]).0 < ni by {
                                assert(base[i] == cs[i]);
                            }
                            assert forall|i: int| 0 <= i < pb@.len() implies (
                            #[trigger] pb@[i]).0 < ni by {
                                assert(pb@[i] == base[i + 1]);
                            }
                            assert(obn == cs[base.len() as int]);
                            lemma_named_bridge(*e2, false, ctx, a, obn);
                            lemma_named_list_bridge(partition_by@, true, ctx, a, pb@, ni);
                            lemma_named_col_list_snoc(a, base, obn, ni);
                        },
                        _ => {
                            assert(cs =~= base);
                            assert forall|i: int| 0 <= i < pb@.len() implies (
                            #[trigger] pb@[i]).0 < ni by {
                                assert(pb@[i] == cs[i + 1]);
                            }
                            lemma_named_list_bridge(partition_by@, true, ctx, a, pb@, ni);
                        },
                    }
                },
                _ => {},
            }
        },
        Expr::Slice { input, offset, length } => {
            match a[ni] {
                AExpr::Slice { input: inn, offset: off, length: len } => {
                    lemma_named_bridge(*input, false, ctx, a, inn);
                    lemma_named_bridge(*offset, true, ctx, a, off);
                    lemma_named_bridge(*length, true, ctx, a, len);
                    assert(cs =~= Seq::<Node>::empty().push(inn).push(off).push(len));
                    lemma_named_col_list_snoc(
                        a,
                        Seq::<Node>::empty().push(inn).push(off),
                        len,
                        ni,
                    );
                    lemma_named_col_list_snoc(a, Seq::<Node>::empty().push(inn), off, ni);
                    lemma_named_col_list_snoc(a, Seq::<Node>::empty(), inn, ni);
                },
                _ => {},
            }
        },
        Expr::Eval { expr, evaluation, variant } => {
            match a[ni] {
                AExpr::Eval { expr: en, evaluation: ev, .. } => {
                    lemma_named_bridge(*expr, false, ctx, a, en);
                    match dtype_of_spec(a, en.0 as int, ctx.schema) {
                        Some(dt) => {
                            match element_dtype_spec(variant, dt) {
                                Some(element) => {
                                    lemma_named_bridge(
                                        *evaluation,
                                        false,
                                        eval_ctx(element),
                                        a,
                                        ev,
                                    );
                                },
                                None => {},
                            }
                        },
                        None => {},
                    }
                    assert(cs =~= Seq::<Node>::empty().push(en).push(ev));
                    lemma_named_col_list_snoc(a, Seq::<Node>::empty().push(en), ev, ni);
                    lemma_named_col_list_snoc(a, Seq::<Node>::empty(), en, ni);
                },
                _ => {},
            }
        },
        Expr::AnonymousFunction { input, .. } => {
            match a[ni] {
                AExpr::AnonymousFunction { input: irs, .. } => {
                    assert(cs =~= irs@.map_values(|ir: ExprIR| ir.node_spec()));
                    lemma_named_irs_bridge(input@, ctx, a, irs@, cs, ni);
                },
                _ => {},
            }
        },
        Expr::KeepName(inner) => {
            lemma_named_bridge(*inner, false, ctx, a, n);
        },
        Expr::RenameAlias { expr, .. } => {
            lemma_named_bridge(*expr, false, ctx, a, n);
        },
        _ => {},
    }
}

/// [`lemma_named_bridge`] over a list of expressions.
pub proof fn lemma_named_list_bridge(
    es: Seq<Expr>,
    m: bool,
    ctx: CtxV,
    a: Seq<AExpr>,
    ns: Seq<Node>,
    n: int,
)
    requires
        lowered_list(es, m, ctx, a, ns),
        ctx.with_fields is None,
        forall|i: int| 0 <= i < ns.len() ==> (#[trigger] ns[i]).0 < n,
    ensures
        (crate::aexpr::named_col_list(a, ns, n) is Some) == dsl_has_named_col_list(es),
    decreases es, 1nat,
{
    if es.len() > 0 {
        lemma_named_bridge(es[0], m, ctx, a, ns[0]);
        assert(forall|i: int|
            0 <= i < ns.drop_first().len() ==> (#[trigger] ns.drop_first()[i]).0 < n && ns
                .drop_first()[i] == ns[i + 1]);
        lemma_named_list_bridge(es.drop_first(), m, ctx, a, ns.drop_first(), n);
    }
}

/// [`lemma_named_bridge`] over a wrapped expression list, whose
/// handles `cs` are the wrappers' nodes.
pub proof fn lemma_named_irs_bridge(
    es: Seq<Expr>,
    ctx: CtxV,
    a: Seq<AExpr>,
    irs: Seq<ExprIR>,
    cs: Seq<Node>,
    n: int,
)
    requires
        lowered_irs(es, ctx, a, irs),
        ctx.with_fields is None,
        cs.len() == irs.len(),
        forall|i: int| 0 <= i < irs.len() ==> cs[i] == (#[trigger] irs[i]).node_spec(),
        forall|i: int| 0 <= i < cs.len() ==> (#[trigger] cs[i]).0 < n,
    ensures
        (crate::aexpr::named_col_list(a, cs, n) is Some) == dsl_has_named_col_list(es),
    decreases es, 2nat,
{
    if es.len() > 0 {
        assert(lowered_ir1(es[0], ctx, a, irs[0]));
        lemma_named_bridge(es[0], false, ctx, a, irs[0].node_spec());
        assert(forall|i: int|
            0 <= i < cs.drop_first().len() ==> #[trigger] cs.drop_first()[i] == cs[i + 1]
                && cs.drop_first()[i] == irs.drop_first()[i].node_spec());
        lemma_named_irs_bridge(
            es.drop_first(),
            ctx,
            a,
            irs.drop_first(),
            cs.drop_first(),
            n,
        );
    }
}

/// The failure classification of an element-wise evaluation whose
/// parts lower successfully: a non-list input fails with the
/// offending type, a named column inside a whole-list evaluation and
/// a non-scalar cumulative evaluation each fail with their own
/// invalid-operation error.
pub open spec fn eval_failure_pinned<T>(
    e: Expr,
    ctx: CtxV,
    result: Result<T, crate::error::IrError>,
) -> bool {
    match e {
        Expr::Eval { expr: e0, evaluation: ev, variant } => lower_total(*e0, ctx) ==> match
            dsl_dtype(*e0, false, ctx.schema) {
            Some(dt) => match element_dtype_spec(variant, dt) {
                Some(element) => lower_total(*ev, eval_ctx(element)) ==> match variant {
                    crate::expr::EvalVariant::List => dsl_has_named_col(*ev) ==> (result
                        matches Err(er) && er is NamedColumnInListEval),
                    crate::expr::EvalVariant::Cumulative { .. } => !dsl_is_scalar(*ev) ==> (result
                        matches Err(er) && er == crate::error::IrError::NonScalarCumulativeEval),
                },
                None => result matches Err(er) && er == crate::error::IrError::EvalNotAList(dt),
            },
            None => true,
        },
        _ => true,
    }
}

/// When this predicate holds, lowering is guaranteed to succeed:
/// field access and function resolution are checked against the
/// context, the keep-name source requirement and the element-wise
/// evaluation conditions (a list-typed input, no named column inside
/// a whole-list evaluation, a scalar cumulative evaluation) against
/// the source tree.
pub open spec fn lower_total(e: Expr, ctx: CtxV) -> bool
    decreases e, 0nat,
{
    match e {
        Expr::Alias(inner, _) => lower_total(*inner, ctx),
        Expr::Column(_) => true,
        Expr::Literal(_) => true,
        Expr::BinaryExpr { left, op, right } => lower_total(*left, ctx) && lower_total(
            *right,
            ctx,
        ),
        Expr::Cast { expr, .. } => lower_total(*expr, ctx),
        Expr::Sort { expr, .. } => lower_total(*expr, ctx),
        Expr::Gather { expr, idx, .. } => lower_total(*expr, ctx) && lower_total(*idx, ctx),
        Expr::SortBy { expr, by, .. } => lower_total(*expr, ctx) && lower_total_list(by@, ctx),
        Expr::Filter { input, by } => lower_total(*input, ctx) && lower_total(*by, ctx),
        Expr::Agg(agg) => lower_total_agg(agg, ctx),
        Expr::Ternary { predicate, truthy, falsy } => lower_total(*predicate, ctx) && lower_total(
            *truthy,
            ctx,
        ) && lower_total(*falsy, ctx),
        Expr::Function { input, .. } => lower_total_list(input@, ctx),
        Expr::Explode { input, .. } => lower_total(*input, ctx),
        Expr::Window { function, partition_by, order_by, .. } => lower_total(*function, ctx)
            && lower_total_list(partition_by@, ctx) && match order_by {
            Some((e2, _)) => lower_total(*e2, ctx),
            None => true,
        },
        Expr::Slice { input, offset, length } => lower_total(*input, ctx) && lower_total(
            *offset,
            ctx,
        ) && lower_total(*length, ctx),
        Expr::Eval { expr, evaluation, variant } => lower_total(*expr, ctx) && match dsl_dtype(
            *expr,
            false,
            ctx.schema,
        ) {
            Some(dt) => match element_dtype_spec(variant, dt) {
                Some(element) => lower_total(*evaluation, eval_ctx(element)) && match variant {
                    crate::expr::EvalVariant::List => !dsl_has_named_col(*evaluation),
                    crate::expr::EvalVariant::Cumulative { .. } => dsl_is_scalar(*evaluation),
                },
                None => false,
            },
            None => false,
        },
        Expr::Len => true,
        Expr::AnonymousFunction { input, function, output_type, .. } => resolves(
            function.required_column,
            ctx.schema,
        ) && resolves(output_type.required_column, ctx.schema) && lower_total_list(input@, ctx),
        Expr::SubPlan => false,
        Expr::Selector => false,
        Expr::KeepName(inner) => lower_total(*inner, ctx) && dsl_has_name_source(*inner),
        Expr::RenameAlias { expr, .. } => lower_total(*expr, ctx),
        Expr::Field(fname) => ctx.with_fields matches Some((_, wf)) && contains_name_spec(
            wf,
            fname@,
        ),
    }
}

/// [`lower_total`] over a list of expressions.
pub open spec fn lower_total_list(es: Seq<Expr>, ctx: CtxV) -> bool
    decreases es, 1nat,
{
    if es.len() == 0 {
        true
    } else {
        lower_total(es[0], ctx) && lower_total_list(es.drop_first(), ctx)
    }
}

/// [`lower_total`] for an aggregation's inputs.
pub open spec fn lower_total_agg(agg: AggExpr, ctx: CtxV) -> bool
    decreases agg, 1nat,
{
    match agg {
        AggExpr::Quantile { expr, quantile, .. } => lower_total(*expr, ctx) && lower_total(
            *quantile,
            ctx,
        ),
        other => lower_total(agg_input(other), ctx),
    }
}

/// Lowers every expression of a list into bare handles, materializing
/// deferred literals eagerly; used for positions whose entries force
/// materialization (window partition keys).
fn lower_list_eager(
    exprs: Vec<Expr>,
    ctx: &ExprToIRContext<'_>,
    arena: &mut crate::arena::Arena<AExpr>,
) -> (result: Result<Vec<Node>, crate::error::IrError>)
    requires
        ctx_wf(ctx@, old(arena)@),
    ensures
        prefix_of(old(arena)@, final(arena)@),
        ctx_wf(ctx@, final(arena)@),
        result matches Ok(ns) ==> lowered_list(exprs@, true, ctx@, final(arena)@, ns@),
        lower_total_list(exprs@, ctx@) ==> result is Ok,
    decreases exprs, 2nat,
{
    let ghost es0 = exprs@;
    let ghost v0 = exprs;
    let ghost a0 = arena@;
    let mut pending = exprs;
    let mut nodes: Vec<Node> = Vec::new();
    proof {
        assert(es0.take(0) =~= Seq::<Expr>::empty());
        assert(lowered_list(Seq::<Expr>::empty(), true, ctx@, arena@, Seq::<Node>::empty()));
        assert(es0.skip(0) =~= es0);
    }
    while pending.len() > 0
        invariant
            v0 == exprs,
            v0@ == es0,
            a0 == old(arena)@,
            nodes@.len() + pending@.len() == es0.len(),
            pending@ == es0.skip(nodes@.len() as int),
            prefix_of(a0, arena@),
            ctx_wf(ctx@, arena@),
            lowered_list(es0.take(nodes@.len() as int), true, ctx@, arena@, nodes@),
        decreases pending@.len(),
    {
        let ghost k = nodes@.len() as int;
        proof {
            assert(pending@[0] == es0[k]);
            assert(decreases_to!(v0 => v0@));
            assert(decreases_to!(v0@ => v0@[k]));
        }
        let e = pending.remove(0);
        let ghost e_g = e;
        let ghost a_pre = arena@;
        let r = to_aexpr_impl_materialized_lit(e, ctx, arena);
        match r {
            Ok((n, _name)) => {
                proof {
                    lemma_lowered_list_prefix(es0.take(k), true, ctx@, a_pre, arena@, nodes@);
                    lemma_lowered_list_snoc(es0.take(k), true, ctx@, arena@, nodes@, e_g, n);
                    assert(es0.take(k).push(es0[k]) =~= es0.take(k + 1));
                    assert(pending@ =~= es0.skip(k + 1));
                }
                nodes.push(n);
            },
            Err(err) => {
                proof {
                    crate::arena::lemma_prefix_trans(a0, a_pre, arena@);
                    if lower_total_list(es0, ctx@) {
                        lemma_lower_total_list_index(es0, ctx@, k);
                    }
                }
                return Err(err);
            },
        }
    }
    proof {
        assert(es0.take(es0.len() as int) =~= es0);
    }
    Ok(nodes)
}

/// Lowers every expression of a list into bare handles without eager
/// materialization; used for sort-by key lists.
fn lower_list_lazy(
    exprs: Vec<Expr>,
    ctx: &ExprToIRContext<'_>,
    arena: &mut crate::arena::Arena<AExpr>,
) -> (result: Result<Vec<Node>, crate::error::IrError>)
    requires
        ctx_wf(ctx@, old(arena)@),
    ensures
        prefix_of(old(arena)@, final(arena)@),
        ctx_wf(ctx@, final(arena)@),
        result matches Ok(ns) ==> lowered_list(exprs@, false, ctx@, final(arena)@, ns@),
        lower_total_list(exprs@, ctx@) ==> result is Ok,
    decreases exprs, 2nat,
{
    let ghost es0 = exprs@;
    let ghost v0 = exprs;
    let ghost a0 = arena@;
    let mut pending = exprs;
    let mut nodes: Vec<Node> = Vec::new();
    proof {
        assert(es0.take(0) =~= Seq::<Expr>::empty());
        assert(lowered_list(Seq::<Expr>::empty(), false, ctx@, arena@, Seq::<Node>::empty()));
        assert(es0.skip(0) =~= es0);
    }
    while pending.len() > 0
        invariant
            v0 == exprs,
            v0@ == es0,
            a0 == old(arena)@,
            nodes@.len() + pending@.len() == es0.len(),
            pending@ == es0.skip(nodes@.len() as int),
            prefix_of(a0, arena@),
            ctx_wf(ctx@, arena@),
            lowered_list(es0.take(nodes@.len() as int), false, ctx@, arena@, nodes@),
        decreases pending@.len(),
    {
        let ghost k = nodes@.len() as int;
        proof {
            assert(pending@[0] == es0[k]);
            assert(decreases_to!(v0 => v0@));
            assert(decreases_to!(v0@ => v0@[k]));
        }
        let e = pending.remove(0);
        let ghost e_g = e;
        let ghost a_pre = arena@;
        let r = to_aexpr_impl(e, ctx, arena);
        match r {
            Ok((n, _name)) => {
                proof {
                    lemma_lowered_list_prefix(es0.take(k), false, ctx@, a_pre, arena@, nodes@);
                    lemma_lowered_list_snoc(es0.take(k), false, ctx@, arena@, nodes@, e_g, n);
                    assert(es0.take(k).push(es0[k]) =~= es0.take(k + 1));
                    assert(pending@ =~= es0.skip(k + 1));
                }
                nodes.push(n);
            },
            Err(err) => {
                proof {
                    crate::arena::lemma_prefix_trans(a0, a_pre, arena@);
                    if lower_total_list(es0, ctx@) {
                        lemma_lower_total_list_index(es0, ctx@, k);
                    }
                }
                return Err(err);
            },
        }
    }
    proof {
        assert(es0.take(es0.len() as int) =~= es0);
    }
    Ok(nodes)
}

/// Lowers every expression of a list into wrapped [`ExprIR`]s, each
/// carrying its propagated output name as an explicit alias.
pub fn to_expr_irs_with_context(
    input: Vec<Expr>,
    ctx: &ExprToIRContext<'_>,
    arena: &mut crate::arena::Arena<AExpr>,
) -> (result: Result<Vec<ExprIR>, crate::error::IrError>)
    requires
        ctx_wf(ctx@, old(arena)@),
    ensures
        prefix_of(old(arena)@, final(arena)@),
        ctx_wf(ctx@, final(arena)@),
        result matches Ok(irs) ==> lowered_irs(input@, ctx@, final(arena)@, irs@),
        lower_total_list(input@, ctx@) ==> result is Ok,
    decreases input, 2nat,
{
    let ghost es0 = input@;
    let ghost v0 = input;
    let ghost a0 = arena@;
    let mut pending = input;
    let mut irs: Vec<ExprIR> = Vec::new();
    proof {
        assert(es0.take(0) =~= Seq::<Expr>::empty());
        assert(lowered_irs(Seq::<Expr>::empty(), ctx@, arena@, Seq::<ExprIR>::empty()));
        assert(es0.skip(0) =~= es0);
    }
    while pending.len() > 0
        invariant
            v0 == input,
            v0@ == es0,
            a0 == old(arena)@,
            irs@.len() + pending@.len() == es0.len(),
            pending@ == es0.skip(irs@.len() as int),
            prefix_of(a0, arena@),
            ctx_wf(ctx@, arena@),
            lowered_irs(es0.take(irs@.len() as int), ctx@, arena@, irs@),
        decreases pending@.len(),
    {
        let ghost k = irs@.len() as int;
        proof {
            assert(pending@[0] == es0[k]);
            assert(decreases_to!(v0 => v0@));
            assert(decreases_to!(v0@ => v0@[k]));
        }
        let e = pending.remove(0);
        let ghost e_g = e;
        let ghost a_pre = arena@;
        let r = to_aexpr_impl(e, ctx, arena);
        match r {
            Ok((n, name)) => {
                let ir = ExprIR::new(n, crate::aexpr::OutputName::Alias(name));
                proof {
                    lemma_lowered_irs_prefix(es0.take(k), ctx@, a_pre, arena@, irs@);
                    assert(lowered_ir1(e_g, ctx@, arena@, ir));
                    lemma_lowered_irs_snoc(es0.take(k), ctx@, arena@, irs@, e_g, ir);
                    assert(es0.take(k).push(es0[k]) =~= es0.take(k + 1));
                    assert(pending@ =~= es0.skip(k + 1));
                }
                irs.push(ir);
            },
            Err(err) => {
                proof {
                    crate::arena::lemma_prefix_trans(a0, a_pre, arena@);
                    if lower_total_list(es0, ctx@) {
                        lemma_lower_total_list_index(es0, ctx@, k);
                    }
                }
                return Err(err);
            },
        }
    }
    proof {
        assert(es0.take(es0.len() as int) =~= es0);
    }
    Ok(irs)
}

/// Converts one expression to an [`AExpr`], inserts it into the
/// arena, and returns its handle together with its propagated output
/// name. The arena only ever grows; on failure the partial insertions
/// stay orphaned and the caller discards the arena.
#[verifier::rlimit(100)]
pub fn to_aexpr_impl(
    expr: Expr,
    ctx: &ExprToIRContext<'_>,
    arena: &mut crate::arena::Arena<AExpr>,
) -> (result: Result<(Node, String), crate::error::IrError>)
    requires
        ctx_wf(ctx@, old(arena)@),
    ensures
        prefix_of(old(arena)@, final(arena)@),
        ctx_wf(ctx@, final(arena)@),
        result matches Ok((n, name)) ==> lowered(expr, false, ctx@, final(arena)@, n)
            && out_name(expr, final(arena)@, n) == Some(name@),
        lower_total(expr, ctx@) ==> result is Ok,
        expr is SubPlan || expr is Selector ==> result == Err::<(Node, String), _>(
            crate::error::IrError::ExprKindNotAllowed,
        ) && final(arena)@ == old(arena)@,
        expr matches Expr::Field(f) ==> ((result is Ok) <==> (ctx@.with_fields matches Some(
            (n0, wf),
        ) && contains_name_spec(wf, f@))),
        expr matches Expr::Field(f) ==> (ctx@.with_fields is None ==> result == Err::<
            (Node, String),
            _,
        >(crate::error::IrError::FieldOutsideStructContext) && final(arena)@ == old(arena)@),
        expr matches Expr::Field(f) ==> match ctx@.with_fields {
            Some((n0, wf)) => !contains_name_spec(wf, f@) ==> (result matches Err(e)
                && e matches crate::error::IrError::FieldDoesNotExist(missing) && missing@ == f@)
                && final(arena)@ == old(arena)@,
            None => true,
        },
        expr matches Expr::KeepName(inner) && lower_total(*inner, ctx@) ==> (result is Ok || result
            == Err::<(Node, String), _>(crate::error::IrError::KeepNameWithoutColumn)),
        eval_failure_pinned(expr, ctx@, result),
    decreases expr, 0nat,
{
    match expr {
        Expr::Alias(inner, al) => {
            let ghost in_g = *inner;
            let (node, _name) = to_aexpr_impl(*inner, ctx, arena)?;
            proof {
                assert(lowered(expr, false, ctx@, arena@, node));
            }
            Ok((node, al))
        },
        Expr::Column(c) => {
            let name = c.clone();
            let ghost a1 = arena@;
            let ghost v = AExpr::Column(name);
            let node = arena.add(AExpr::Column(c));
            proof {
                assert(crate::aexpr::children_spec(arena@[node.0 as int]) =~= Seq::<
                    Node,
                >::empty());
                lemma_push_node(a1, arena@[node.0 as int]);
                lemma_ctx_wf_prefix(ctx@, a1, arena@);
            }
            Ok((node, name))
        },
        Expr::Literal(lv) => {
            let name = lv.output_column_name();
            let ghost a1 = arena@;
            let node = arena.add(AExpr::Literal(lv));
            proof {
                assert(crate::aexpr::children_spec(arena@[node.0 as int]) =~= Seq::<
                    Node,
                >::empty());
                lemma_push_node(a1, arena@[node.0 as int]);
                lemma_ctx_wf_prefix(ctx@, a1, arena@);
            }
            Ok((node, name))
        },
        Expr::BinaryExpr { left, op, right } => {
            let ghost l_g = *left;
            let ghost r_g = *right;
            let (l, name) = to_aexpr_impl(*left, ctx, arena)?;
            let ghost a1 = arena@;
            let (r, _) = to_aexpr_impl(*right, ctx, arena)?;
            let ghost a2 = arena@;
            proof {
                lemma_lowered_prefix(l_g, false, ctx@, a1, a2, l);
            }
            let ghost v = AExpr::BinaryExpr { left: l, op, right: r };
            let node = arena.add(AExpr::BinaryExpr { left: l, op, right: r });
            proof {
                lemma_lowered_wf(l_g, false, ctx@, a2, l);
                lemma_lowered_wf(r_g, false, ctx@, a2, r);
                assert(crate::aexpr::children_spec(v) =~= seq![l, r]);
                lemma_push_node(a2, v);
                lemma_lowered_prefix(l_g, false, ctx@, a2, arena@, l);
                lemma_lowered_prefix(r_g, false, ctx@, a2, arena@, r);
                lemma_ctx_wf_prefix(ctx@, a2, arena@);
                assert(lowered(expr, false, ctx@, arena@, node));
            }
            Ok((node, name))
        },
        Expr::Cast { expr: inner, dtype, options } => {
            let ghost in_g = *inner;
            let (en, name) = to_aexpr_impl(*inner, ctx, arena)?;
            let ghost a1 = arena@;
            let node = arena.add(AExpr::Cast { expr: en, dtype, options });
            proof {
                let v = arena@[node.0 as int];
                lemma_lowered_wf(in_g, false, ctx@, a1, en);
                assert(crate::aexpr::children_spec(v) =~= seq![en]);
                lemma_push_node(a1, v);
                lemma_lowered_prefix(in_g, false, ctx@, a1, arena@, en);
                lemma_ctx_wf_prefix(ctx@, a1, arena@);
                assert(lowered(expr, false, ctx@, arena@, node));
            }
            Ok((node, name))
        },
        Expr::Sort { expr: inner, options } => {
            let ghost in_g = *inner;
            let (en, name) = to_aexpr_impl(*inner, ctx, arena)?;
            let ghost a1 = arena@;
            let node = arena.add(AExpr::Sort { expr: en, options });
            proof {
                let v = arena@[node.0 as int];
                lemma_lowered_wf(in_g, false, ctx@, a1, en);
                assert(crate::aexpr::children_spec(v) =~= seq![en]);
                lemma_push_node(a1, v);
                lemma_lowered_prefix(in_g, false, ctx@, a1, arena@, en);
                lemma_ctx_wf_prefix(ctx@, a1, arena@);
                assert(lowered(expr, false, ctx@, arena@, node));
            }
            Ok((node, name))
        },
        Expr::Gather { expr: inner, idx, returns_scalar } => {
            let ghost in_g = *inner;
            let ghost idx_g = *idx;
            let (en, name) = to_aexpr_impl(*inner, ctx, arena)?;
            let ghost a1 = arena@;
            let (ix, _) = to_aexpr_impl_materialized_lit(*idx, ctx, arena)?;
            let ghost a2 = arena@;
            proof {
                lemma_lowered_prefix(in_g, false, ctx@, a1, a2, en);
            }
            let node = arena.add(AExpr::Gather { expr: en, idx: ix, returns_scalar });
            proof {
                let v = arena@[node.0 as int];
                lemma_lowered_wf(in_g, false, ctx@, a2, en);
                lemma_lowered_wf(idx_g, true, ctx@, a2, ix);
                assert(crate::aexpr::children_spec(v) =~= seq![en, ix]);
                lemma_push_node(a2, v);
                lemma_lowered_prefix(in_g, false, ctx@, a2, arena@, en);
                lemma_lowered_prefix(idx_g, true, ctx@, a2, arena@, ix);
                lemma_ctx_wf_prefix(ctx@, a2, arena@);
                assert(lowered(expr, false, ctx@, arena@, node));
            }
            Ok((node, name))
        },
        Expr::SortBy { expr: inner, by, sort_options } => {
            let ghost in_g = *inner;
            let ghost by_g = by@;
            let (en, name) = to_aexpr_impl(*inner, ctx, arena)?;
            let ghost a1 = arena@;
            let bn = lower_list_lazy(by, ctx, arena)?;
            let ghost a2 = arena@;
            proof {
                lemma_lowered_prefix(in_g, false, ctx@, a1, a2, en);
            }
            let ghost bn_g = bn@;
            let node = arena.add(AExpr::SortBy { expr: en, by: bn, sort_options });
            proof {
                let v = arena@[node.0 as int];
                lemma_lowered_wf(in_g, false, ctx@, a2, en);
                assert forall|i: int|
                    0 <= i < crate::aexpr::children_spec(v).len() implies (
                #[trigger] crate::aexpr::children_spec(v)[i]).0 < a2.len() && wf_node(
                    a2,
                    crate::aexpr::children_spec(v)[i].0 as int,
                ) by {
                    let cs = crate::aexpr::children_spec(v);
                    assert(cs =~= seq![en] + bn_g);
                    if i == 0 {
                        assert(cs[0] == en);
                    } else {
                        assert(cs[i] == bn_g[i - 1]);
                        lemma_lowered_list_index_wf(by_g, false, ctx@, a2, bn_g, i - 1);
                    }
                }
                lemma_push_node(a2, v);
                lemma_lowered_prefix(in_g, false, ctx@, a2, arena@, en);
                lemma_lowered_list_prefix(by_g, false, ctx@, a2, arena@, bn_g);
                lemma_ctx_wf_prefix(ctx@, a2, arena@);
                assert(lowered(expr, false, ctx@, arena@, node));
            }
            Ok((node, name))
        },
        Expr::Filter { input, by } => {
            let ghost in_g = *input;
            let ghost by_g2 = *by;
            let (inn, name) = to_aexpr_impl(*input, ctx, arena)?;
            let ghost a1 = arena@;
            let (byn, _) = to_aexpr_impl(*by, ctx, arena)?;
            let ghost a2 = arena@;
            proof {
                lemma_lowered_prefix(in_g, false, ctx@, a1, a2, inn);
            }
            let node = arena.add(AExpr::Filter { input: inn, by: byn });
            proof {
                let v = arena@[node.0 as int];
                lemma_lowered_wf(in_g, false, ctx@, a2, inn);
                lemma_lowered_wf(by_g2, false, ctx@, a2, byn);
                assert(crate::aexpr::children_spec(v) =~= seq![inn, byn]);
                lemma_push_node(a2, v);
                lemma_lowered_prefix(in_g, false, ctx@, a2, arena@, inn);
                lemma_lowered_prefix(by_g2, false, ctx@, a2, arena@, byn);
                lemma_ctx_wf_prefix(ctx@, a2, arena@);
                assert(lowered(expr, false, ctx@, arena@, node));
            }
            Ok((node, name))
        },
        Expr::Agg(agg) => {
            let ghost agg_g = agg;
            match agg {
                AggExpr::Quantile { expr: qe, quantile, method } => {
                    let ghost e_g = *qe;
                    let ghost q_g = *quantile;
                    let r1 = to_aexpr_impl_materialized_lit(*qe, ctx, arena);
                    let (en, name) = match r1 {
                        Ok(x) => x,
                        Err(err) => {
                            proof {
                                if lower_total(expr, ctx@) {
                                    assert(lower_total_agg(agg_g, ctx@));
                                    assert(lower_total(e_g, ctx@));
                                }
                            }
                            return Err(err);
                        },
                    };
                    let ghost a1 = arena@;
                    let r2 = to_aexpr_impl_materialized_lit(*quantile, ctx, arena);
                    let (qn, _) = match r2 {
                        Ok(x) => x,
                        Err(err) => {
                            proof {
                                if lower_total(expr, ctx@) {
                                    assert(lower_total_agg(agg_g, ctx@));
                                    assert(lower_total(q_g, ctx@));
                                }
                            }
                            return Err(err);
                        },
                    };
                    let ghost a2 = arena@;
                    proof {
                        lemma_lowered_prefix(e_g, true, ctx@, a1, a2, en);
                    }
                    let node = arena.add(
                        AExpr::Agg(IRAggExpr::Quantile { expr: en, quantile: qn, method }),
                    );
                    proof {
                        let v = arena@[node.0 as int];
                        lemma_lowered_wf(e_g, true, ctx@, a2, en);
                        lemma_lowered_wf(q_g, true, ctx@, a2, qn);
                        assert(crate::aexpr::children_spec(v) =~= seq![en, qn]);
                        lemma_push_node(a2, v);
                        lemma_lowered_prefix(e_g, true, ctx@, a2, arena@, en);
                        lemma_lowered_prefix(q_g, true, ctx@, a2, arena@, qn);
                        lemma_ctx_wf_prefix(ctx@, a2, arena@);
                        match arena@[node.0 as int] {
                            AExpr::Agg(ia) => {
                                assert(lowered_agg(agg_g, ia, ctx@, arena@));
                            },
                            _ => {},
                        }
                        assert(lowered(expr, false, ctx@, arena@, node));
                    }
                    Ok((node, name))
                },
                AggExpr::Min { input, propagate_nans } => {
                    let ghost in_g = *input;
                    let r1 = to_aexpr_impl_materialized_lit(*input, ctx, arena);
                    let (inn, name) = match r1 {
                        Ok(x) => x,
                        Err(err) => {
                            proof {
                                if lower_total(expr, ctx@) {
                                    assert(lower_total_agg(agg_g, ctx@));
                                    assert(lower_total(agg_input(agg_g), ctx@));
                                }
                            }
                            return Err(err);
                        },
                    };
                    let ghost a1 = arena@;
                    let node = arena.add(AExpr::Agg(IRAggExpr::Min { input: inn, propagate_nans }));
                    proof {
                        lemma_finish_agg(in_g, ctx@, a1, arena@, arena@[node.0 as int], inn);
                        match arena@[node.0 as int] {
                            AExpr::Agg(ia) => {
                                assert(lowered_agg(agg_g, ia, ctx@, arena@));
                            },
                            _ => {},
                        }
                        assert(lowered(expr, false, ctx@, arena@, node));
                    }
                    Ok((node, name))
                },
                AggExpr::Max { input, propagate_nans } => {
                    let ghost in_g = *input;
                    let r1 = to_aexpr_impl_materialized_lit(*input, ctx, arena);
                    let (inn, name) = match r1 {
                        Ok(x) => x,
                        Err(err) => {
                            proof {
                                if lower_total(expr, ctx@) {
                                    assert(lower_total_agg(agg_g, ctx@));
                                    assert(lower_total(agg_input(agg_g), ctx@));
                                }
                            }
                            return Err(err);
                        },
                    };
                    let ghost a1 = arena@;
                    let node = arena.add(AExpr::Agg(IRAggExpr::Max { input: inn, propagate_nans }));
                    proof {
                        lemma_finish_agg(in_g, ctx@, a1, arena@, arena@[node.0 as int], inn);
                        match arena@[node.0 as int] {
                            AExpr::Agg(ia) => {
                                assert(lowered_agg(agg_g, ia, ctx@, arena@));
                            },
                            _ => {},
                        }
                        assert(lowered(expr, false, ctx@, arena@, node));
                    }
                    Ok((node, name))
                },
                AggExpr::Median(input) => {
                    let ghost in_g = *input;
                    let r1 = to_aexpr_impl_materialized_lit(*input, ctx, arena);
                    let (inn, name) = match r1 {
                        Ok(x) => x,
                        Err(err) => {
                            proof {
                                if lower_total(expr, ctx@) {
                                    assert(lower_total_agg(agg_g, ctx@));
                                    assert(lower_total(agg_input(agg_g), ctx@));
                                }
                            }
                            return Err(err);
                        },
                    };
                    let ghost a1 = arena@;
                    let node = arena.add(AExpr::Agg(IRAggExpr::Median(inn)));
                    proof {
                        lemma_finish_agg(in_g, ctx@, a1, arena@, arena@[node.0 as int], inn);
                        match arena@[node.0 as int] {
                            AExpr::Agg(ia) => {
                                assert(lowered_agg(agg_g, ia, ctx@, arena@));
                            },
                            _ => {},
                        }
                        assert(lowered(expr, false, ctx@, arena@, node));
                    }
                    Ok((node, name))
                },
                AggExpr::NUnique(input) => {
                    let ghost in_g = *input;
                    let r1 = to_aexpr_impl_materialized_lit(*input, ctx, arena);
                    let (inn, name) = match r1 {
                        Ok(x) => x,
                        Err(err) => {
                            proof {
                                if lower_total(expr, ctx@) {
                                    assert(lower_total_agg(agg_g, ctx@));
                                    assert(lower_total(agg_input(agg_g), ctx@));
                                }
                            }
                            return Err(err);
                        },
                    };
                    let ghost a1 = arena@;
                    let node = arena.add(AExpr::Agg(IRAggExpr::NUnique(inn)));
                    proof {
                        lemma_finish_agg(in_g, ctx@, a1, arena@, arena@[node.0 as int], inn);
                        match arena@[node.0 as int] {
                            AExpr::Agg(ia) => {
                                assert(lowered_agg(agg_g, ia, ctx@, arena@));
                            },
                            _ => {},
                        }
                        assert(lowered(expr, false, ctx@, arena@, node));
                    }
                    Ok((node, name))
                },
                AggExpr::First(input) => {
                    let ghost in_g = *input;
                    let r1 = to_aexpr_impl_materialized_lit(*input, ctx, arena);
                    let (inn, name) = match r1 {
                        Ok(x) => x,
                        Err(err) => {
                            proof {
                                if lower_total(expr, ctx@) {
                                    assert(lower_total_agg(agg_g, ctx@));
                                    assert(lower_total(agg_input(agg_g), ctx@));
                                }
                            }
                            return Err(err);
                        },
                    };
                    let ghost a1 = arena@;
                    let node = arena.add(AExpr::Agg(IRAggExpr::First(inn)));
                    proof {
                        lemma_finish_agg(in_g, ctx@, a1, arena@, arena@[node.0 as int], inn);
                        match arena@[node.0 as int] {
                            AExpr::Agg(ia) => {
                                assert(lowered_agg(agg_g, ia, ctx@, arena@));
                            },
                            _ => {},
                        }
                        assert(lowered(expr, false, ctx@, arena@, node));
                    }
                    Ok((node, name))
                },
                AggExpr::Last(input) => {
                    let ghost in_g = *input;
                    let r1 = to_aexpr_impl_materialized_lit(*input, ctx, arena);
                    let (inn, name) = match r1 {
                        Ok(x) => x,
                        Err(err) => {
                            proof {
                                if lower_total(expr, ctx@) {
                                    assert(lower_total_agg(agg_g, ctx@));
                                    assert(lower_total(agg_input(agg_g), ctx@));
                                }
                            }
                            return Err(err);
                        },
                    };
                    let ghost a1 = arena@;
                    let node = arena.add(AExpr::Agg(IRAggExpr::Last(inn)));
                    proof {
                        lemma_finish_agg(in_g, ctx@, a1, arena@, arena@[node.0 as int], inn);
                        match arena@[node.0 as int] {
                            AExpr::Agg(ia) => {
                                assert(lowered_agg(agg_g, ia, ctx@, arena@));
                            },
                            _ => {},
                        }
                        assert(lowered(expr, false, ctx@, arena@, node));
                    }
                    Ok((node, name))
                },
                AggExpr::Mean(input) => {
                    let ghost in_g = *input;
                    let r1 = to_aexpr_impl_materialized_lit(*input, ctx, arena);
                    let (inn, name) = match r1 {
                        Ok(x) => x,
                        Err(err) => {
                            proof {
                                if lower_total(expr, ctx@) {
                                    assert(lower_total_agg(agg_g, ctx@));
                                    assert(lower_total(agg_input(agg_g), ctx@));
                                }
                            }
                            return Err(err);
                        },
                    };
                    let ghost a1 = arena@;
                    let node = arena.add(AExpr::Agg(IRAggExpr::Mean(inn)));
                    proof {
                        lemma_finish_agg(in_g, ctx@, a1, arena@, arena@[node.0 as int], inn);
                        match arena@[node.0 as int] {
                            AExpr::Agg(ia) => {
                                assert(lowered_agg(agg_g, ia, ctx@, arena@));
                            },
                            _ => {},
                        }
                        assert(lowered(expr, false, ctx@, arena@, node));
                    }
                    Ok((node, name))
                },
                AggExpr::Implode(input) => {
                    let ghost in_g = *input;
                    let r1 = to_aexpr_impl_materialized_lit(*input, ctx, arena);
                    let (inn, name) = match r1 {
                        Ok(x) => x,
                        Err(err) => {
                            proof {
                                if lower_total(expr, ctx@) {
                                    assert(lower_total_agg(agg_g, ctx@));
                                    assert(lower_total(agg_input(agg_g), ctx@));
                                }
                            }
                            return Err(err);
                        },
                    };
                    let ghost a1 = arena@;
                    let node = arena.add(AExpr::Agg(IRAggExpr::Implode(inn)));
                    proof {
                        lemma_finish_agg(in_g, ctx@, a1, arena@, arena@[node.0 as int], inn);
                        match arena@[node.0 as int] {
                            AExpr::Agg(ia) => {
                                assert(lowered_agg(agg_g, ia, ctx@, arena@));
                            },
                            _ => {},
                        }
                        assert(lowered(expr, false, ctx@, arena@, node));
                    }
                    Ok((node, name))
                },
                AggExpr::Count(input, include_nulls) => {
                    let ghost in_g = *input;
                    let r1 = to_aexpr_impl_materialized_lit(*input, ctx, arena);
                    let (inn, name) = match r1 {
                        Ok(x) => x,
                        Err(err) => {
                            proof {
                                if lower_total(expr, ctx@) {
                                    assert(lower_total_agg(agg_g, ctx@));
                                    assert(lower_total(agg_input(agg_g), ctx@));
                                }
                            }
                            return Err(err);
                        },
                    };
                    let ghost a1 = arena@;
                    let node = arena.add(AExpr::Agg(IRAggExpr::Count(inn, include_nulls)));
                    proof {
                        lemma_finish_agg(in_g, ctx@, a1, arena@, arena@[node.0 as int], inn);
                        match arena@[node.0 as int] {
                            AExpr::Agg(ia) => {
                                assert(lowered_agg(agg_g, ia, ctx@, arena@));
                            },
                            _ => {},
                        }
                        assert(lowered(expr, false, ctx@, arena@, node));
                    }
                    Ok((node, name))
                },
                AggExpr::Sum(input) => {
                    let ghost in_g = *input;
                    let r1 = to_aexpr_impl_materialized_lit(*input, ctx, arena);
                    let (inn, name) = match r1 {
                        Ok(x) => x,
                        Err(err) => {
                            proof {
                                if lower_total(expr, ctx@) {
                                    assert(lower_total_agg(agg_g, ctx@));
                                    assert(lower_total(agg_input(agg_g), ctx@));
                                }
                            }
                            return Err(err);
                        },
                    };
                    let ghost a1 = arena@;
                    let node = arena.add(AExpr::Agg(IRAggExpr::Sum(inn)));
                    proof {
                        lemma_finish_agg(in_g, ctx@, a1, arena@, arena@[node.0 as int], inn);
                        match arena@[node.0 as int] {
                            AExpr::Agg(ia) => {
                                assert(lowered_agg(agg_g, ia, ctx@, arena@));
                            },
                            _ => {},
                        }
                        assert(lowered(expr, false, ctx@, arena@, node));
                    }
                    Ok((node, name))
                },
                AggExpr::Std(input, ddof) => {
                    let ghost in_g = *input;
                    let r1 = to_aexpr_impl_materialized_lit(*input, ctx, arena);
                    let (inn, name) = match r1 {
                        Ok(x) => x,
                        Err(err) => {
                            proof {
                                if lower_total(expr, ctx@) {
                                    assert(lower_total_agg(agg_g, ctx@));
                                    assert(lower_total(agg_input(agg_g), ctx@));
                                }
                            }
                            return Err(err);
                        },
                    };
                    let ghost a1 = arena@;
                    let node = arena.add(AExpr::Agg(IRAggExpr::Std(inn, ddof)));
                    proof {
                        lemma_finish_agg(in_g, ctx@, a1, arena@, arena@[node.0 as int], inn);
                        match arena@[node.0 as int] {
                            AExpr::Agg(ia) => {
                                assert(lowered_agg(agg_g, ia, ctx@, arena@));
                            },
                            _ => {},
                        }
                        assert(lowered(expr, false, ctx@, arena@, node));
                    }
                    Ok((node, name))
                },
                AggExpr::Var(input, ddof) => {
                    let ghost in_g = *input;
                    let r1 = to_aexpr_impl_materialized_lit(*input, ctx, arena);
                    let (inn, name) = match r1 {
                        Ok(x) => x,
                        Err(err) => {
                            proof {
                                if lower_total(expr, ctx@) {
                                    assert(lower_total_agg(agg_g, ctx@));
                                    assert(lower_total(agg_input(agg_g), ctx@));
                                }
                            }
                            return Err(err);
                        },
                    };
                    let ghost a1 = arena@;
                    let node = arena.add(AExpr::Agg(IRAggExpr::Var(inn, ddof)));
                    proof {
                        lemma_finish_agg(in_g, ctx@, a1, arena@, arena@[node.0 as int], inn);
                        match arena@[node.0 as int] {
                            AExpr::Agg(ia) => {
                                assert(lowered_agg(agg_g, ia, ctx@, arena@));
                            },
                            _ => {},
                        }
                        assert(lowered(expr, false, ctx@, arena@, node));
                    }
                    Ok((node, name))
                },
                AggExpr::AggGroups(input) => {
                    let ghost in_g = *input;
                    let r1 = to_aexpr_impl_materialized_lit(*input, ctx, arena);
                    let (inn, name) = match r1 {
                        Ok(x) => x,
                        Err(err) => {
                            proof {
                                if lower_total(expr, ctx@) {
                                    assert(lower_total_agg(agg_g, ctx@));
                                    assert(lower_total(agg_input(agg_g), ctx@));
                                }
                            }
                            return Err(err);
                        },
                    };
                    let ghost a1 = arena@;
                    let node = arena.add(AExpr::Agg(IRAggExpr::AggGroups(inn)));
                    proof {
                        lemma_finish_agg(in_g, ctx@, a1, arena@, arena@[node.0 as int], inn);
                        match arena@[node.0 as int] {
                            AExpr::Agg(ia) => {
                                assert(lowered_agg(agg_g, ia, ctx@, arena@));
                            },
                            _ => {},
                        }
                        assert(lowered(expr, false, ctx@, arena@, node));
                    }
                    Ok((node, name))
                },
            }
        },
        Expr::Ternary { predicate, truthy, falsy } => {
            let ghost p_g = *predicate;
            let ghost t_g = *truthy;
            let ghost f_g = *falsy;
            let (p, _) = to_aexpr_impl_materialized_lit(*predicate, ctx, arena)?;
            let ghost a1 = arena@;
            let (t, name) = to_aexpr_impl(*truthy, ctx, arena)?;
            let ghost a2 = arena@;
            let (f, _) = to_aexpr_impl(*falsy, ctx, arena)?;
            let ghost a3 = arena@;
            proof {
                lemma_lowered_prefix(p_g, true, ctx@, a1, a2, p);
                lemma_lowered_prefix(p_g, true, ctx@, a2, a3, p);
                lemma_lowered_prefix(t_g, false, ctx@, a2, a3, t);
            }
            let node = arena.add(AExpr::Ternary { predicate: p, truthy: t, falsy: f });
            proof {
                let v = arena@[node.0 as int];
                lemma_lowered_wf(p_g, true, ctx@, a3, p);
                lemma_lowered_wf(t_g, false, ctx@, a3, t);
                lemma_lowered_wf(f_g, false, ctx@, a3, f);
                assert(crate::aexpr::children_spec(v) =~= seq![p, t, f]);
                lemma_push_node(a3, v);
                lemma_lowered_prefix(p_g, true, ctx@, a3, arena@, p);
                lemma_lowered_prefix(t_g, false, ctx@, a3, arena@, t);
                lemma_lowered_prefix(f_g, false, ctx@, a3, arena@, f);
                lemma_ctx_wf_prefix(ctx@, a3, arena@);
                assert(lowered(expr, false, ctx@, arena@, node));
            }
            Ok((node, name))
        },
        Expr::Function { input, function } => {
            let ghost in_g = input@;
            let ghost fun_g = function;
            let input_empty = input.len() == 0;
            let irs = to_expr_irs_with_context(input, ctx, arena)?;
            let ghost a1 = arena@;
            let name: String = if input_empty {
                function.display_name()
            } else {
                proof {
                    lemma_lowered_irs_index(in_g, ctx@, a1, irs@, 0);
                }
                match irs[0].output_name() {
                    Some(s) => s.clone(),
                    None => {
                        proof {
                            assert(false);
                        }
                        String::new()
                    },
                }
            };
            let options = function.function_options();
            let ir_function = match function {
                FunctionExpr::StructExpr(StructFunction::FieldByName(fname)) => {
                    IRFunctionExpr::StructExpr(IRStructFunction::FieldByName(fname))
                },
            };
            let ghost irs_g = irs@;
            let node = arena.add(AExpr::Function { input: irs, function: ir_function, options });
            proof {
                let v = arena@[node.0 as int];
                assert forall|i: int|
                    0 <= i < crate::aexpr::children_spec(v).len() implies (
                #[trigger] crate::aexpr::children_spec(v)[i]).0 < a1.len() && wf_node(
                    a1,
                    crate::aexpr::children_spec(v)[i].0 as int,
                ) by {
                    let cs = crate::aexpr::children_spec(v);
                    assert(cs[i] == irs_g[i].node_spec());
                    lemma_lowered_irs_index(in_g, ctx@, a1, irs_g, i);
                    lemma_lowered_wf(in_g[i], false, ctx@, a1, irs_g[i].node_spec());
                }
                lemma_push_node(a1, v);
                lemma_lowered_irs_prefix(in_g, ctx@, a1, arena@, irs_g);
                lemma_ctx_wf_prefix(ctx@, a1, arena@);
                if !input_empty {
                    lemma_lowered_irs_index(in_g, ctx@, arena@, irs_g, 0);
                }
                assert(lowered(expr, false, ctx@, arena@, node));
                assert(out_name(expr, arena@, node) == Some(name@));
            }
            Ok((node, name))
        },
        Expr::Explode { input, skip_empty } => {
            let ghost in_g = *input;
            let (en, name) = to_aexpr_impl(*input, ctx, arena)?;
            let ghost a1 = arena@;
            let node = arena.add(AExpr::Explode { expr: en, skip_empty });
            proof {
                let v = arena@[node.0 as int];
                lemma_lowered_wf(in_g, false, ctx@, a1, en);
                assert(crate::aexpr::children_spec(v) =~= seq![en]);
                lemma_push_node(a1, v);
                lemma_lowered_prefix(in_g, false, ctx@, a1, arena@, en);
                lemma_ctx_wf_prefix(ctx@, a1, arena@);
                assert(lowered(expr, false, ctx@, arena@, node));
            }
            Ok((node, name))
        },
        Expr::Window { function, partition_by, order_by, options } => {
            let ghost f_g = *function;
            let ghost ob_g = order_by;
            let ghost pb_g = partition_by@;
            let (fnn, name) = to_aexpr_impl(*function, ctx, arena)?;
            let ghost a1 = arena@;
            let ob_new: Option<(Node, crate::options::SortOptions)> = match order_by {
                Some((e2, so)) => {
                    let (obn, _) = to_aexpr_impl(*e2, ctx, arena)?;
                    Some((obn, so))
                },
                None => None,
            };
            let ghost a2 = arena@;
            proof {
                lemma_lowered_prefix(f_g, false, ctx@, a1, a2, fnn);
            }
            let pb_nodes = lower_list_eager(partition_by, ctx, arena)?;
            let ghost a3 = arena@;
            proof {
                lemma_lowered_prefix(f_g, false, ctx@, a2, a3, fnn);
                match (ob_g, ob_new) {
                    (Some((e2b, _)), Some((obn, _))) => {
                        lemma_lowered_prefix(*e2b, false, ctx@, a2, a3, obn);
                    },
                    _ => {},
                }
            }
            let ghost pbn_g = pb_nodes@;
            let ghost obn_g = ob_new;
            let node = arena.add(
                AExpr::Window { function: fnn, partition_by: pb_nodes, order_by: ob_new, options },
            );
            proof {
                let v = arena@[node.0 as int];
                lemma_lowered_wf(f_g, false, ctx@, a3, fnn);
                assert forall|i: int|
                    0 <= i < crate::aexpr::children_spec(v).len() implies (
                #[trigger] crate::aexpr::children_spec(v)[i]).0 < a3.len() && wf_node(
                    a3,
                    crate::aexpr::children_spec(v)[i].0 as int,
                ) by {
                    let cs = crate::aexpr::children_spec(v);
                    let base = seq![fnn] + pbn_g;
                    if i == 0 {
                        assert(cs[0] == fnn);
                    } else if i <= pbn_g.len() {
                        assert(cs[i] == pbn_g[i - 1]);
                        lemma_lowered_list_index_wf(pb_g, true, ctx@, a3, pbn_g, i - 1);
                    } else {
                        match (ob_g, obn_g) {
                            (Some((e2b, _)), Some((obn, _))) => {
                                assert(cs[i] == obn);
                                lemma_lowered_wf(*e2b, false, ctx@, a3, obn);
                            },
                            _ => {},
                        }
                    }
                }
                lemma_push_node(a3, v);
                lemma_lowered_prefix(f_g, false, ctx@, a3, arena@, fnn);
                lemma_lowered_list_prefix(pb_g, true, ctx@, a3, arena@, pbn_g);
                match (ob_g, obn_g) {
                    (Some((e2b, _)), Some((obn, _))) => {
                        lemma_lowered_prefix(*e2b, false, ctx@, a3, arena@, obn);
                    },
                    _ => {},
                }
                lemma_ctx_wf_prefix(ctx@, a3, arena@);
                assert(lowered(expr, false, ctx@, arena@, node));
            }
            Ok((node, name))
        },
        Expr::Slice { input, offset, length } => {
            let ghost in_g = *input;
            let ghost off_g = *offset;
            let ghost len_g = *length;
            let (inn, name) = to_aexpr_impl(*input, ctx, arena)?;
            let ghost a1 = arena@;
            let (off, _) = to_aexpr_impl_materialized_lit(*offset, ctx, arena)?;
            let ghost a2 = arena@;
            let (len, _) = to_aexpr_impl_materialized_lit(*length, ctx, arena)?;
            let ghost a3 = arena@;
            proof {
                lemma_lowered_prefix(in_g, false, ctx@, a1, a2, inn);
                lemma_lowered_prefix(in_g, false, ctx@, a2, a3, inn);
                lemma_lowered_prefix(off_g, true, ctx@, a2, a3, off);
            }
            let node = arena.add(AExpr::Slice { input: inn, offset: off, length: len });
            proof {
                let v = arena@[node.0 as int];
                lemma_lowered_wf(in_g, false, ctx@, a3, inn);
                lemma_lowered_wf(off_g, true, ctx@, a3, off);
                lemma_lowered_wf(len_g, true, ctx@, a3, len);
                assert(crate::aexpr::children_spec(v) =~= seq![inn, off, len]);
                lemma_push_node(a3, v);
                lemma_lowered_prefix(in_g, false, ctx@, a3, arena@, inn);
                lemma_lowered_prefix(off_g, true, ctx@, a3, arena@, off);
                lemma_lowered_prefix(len_g, true, ctx@, a3, arena@, len);
                lemma_ctx_wf_prefix(ctx@, a3, arena@);
                assert(lowered(expr, false, ctx@, arena@, node));
            }
            Ok((node, name))
        },
        Expr::Eval { expr: inner, evaluation, variant } => {
            let ghost in_g = *inner;
            let ghost ev_g = *evaluation;
            let (en, name) = to_aexpr_impl(*inner, ctx, arena)?;
            let ghost a1 = arena@;
            proof {
                lemma_lowered_wf(in_g, false, ctx@, a1, en);
                lemma_dtype_bridge(in_g, false, ctx@, a1, en);
            }
            let expr_dtype = crate::aexpr::dtype_of(en, arena, ctx.schema)?;
            let element = variant.element_dtype(expr_dtype)?;
            let ghost element_g = element;
            let eval_schema = Schema::new().with_field(String::new(), element);
            let eval_context = ExprToIRContext { with_fields: None, schema: &eval_schema };
            proof {
                assert(eval_schema@ =~= seq![(Seq::<char>::empty(), element_g)]);
                assert(eval_context@ == eval_ctx(element_g));
            }
            let r_ev = to_aexpr_impl(*evaluation, &eval_context, arena);
            let (ev, _) = match r_ev {
                Ok(x) => x,
                Err(err) => {
                    proof {
                        lemma_ctx_wf_prefix(ctx@, a1, arena@);
                    }
                    return Err(err);
                },
            };
            let ghost a2 = arena@;
            proof {
                lemma_ctx_wf_prefix(ctx@, a1, a2);
            }
            proof {
                lemma_lowered_prefix(in_g, false, ctx@, a1, a2, en);
                lemma_lowered_wf(ev_g, false, eval_ctx(element_g), a2, ev);
            }
            match variant {
                crate::expr::EvalVariant::List => {
                    proof {
                        lemma_named_bridge(ev_g, false, eval_ctx(element_g), a2, ev);
                    }
                    if let Some(bad) = crate::aexpr::find_named_column(ev, arena) {
                        return Err(crate::error::IrError::NamedColumnInListEval(bad));
                    }
                },
                crate::expr::EvalVariant::Cumulative { .. } => {
                    proof {
                        lemma_scalar_bridge(ev_g, false, eval_ctx(element_g), a2, ev);
                    }
                    if !crate::aexpr::is_scalar_ae(ev, arena) {
                        return Err(crate::error::IrError::NonScalarCumulativeEval);
                    }
                },
            }
            let node = arena.add(AExpr::Eval { expr: en, evaluation: ev, variant });
            proof {
                let v = arena@[node.0 as int];
                assert(crate::aexpr::children_spec(v) =~= seq![en, ev]);
                lemma_push_node(a2, v);
                lemma_lowered_prefix(in_g, false, ctx@, a2, arena@, en);
                lemma_lowered_prefix(ev_g, false, eval_ctx(element_g), a2, arena@, ev);
                crate::aexpr::lemma_dtype_prefix(a1, a2, en.0 as int, ctx@.schema);
                crate::aexpr::lemma_dtype_prefix(a2, arena@, en.0 as int, ctx@.schema);
                match variant {
                    crate::expr::EvalVariant::List => {
                        crate::aexpr::lemma_named_col_prefix(a2, arena@, ev.0 as int);
                    },
                    crate::expr::EvalVariant::Cumulative { .. } => {
                        crate::aexpr::lemma_is_scalar_prefix(a2, arena@, ev.0 as int);
                    },
                }
                lemma_ctx_wf_prefix(ctx@, a2, arena@);
                assert(lowered(expr, false, ctx@, arena@, node));
            }
            Ok((node, name))
        },
        Expr::Len => {
            let name = String::from_str("len");
            let ghost a1 = arena@;
            let node = arena.add(AExpr::Len);
            proof {
                assert(crate::aexpr::children_spec(arena@[node.0 as int]) =~= Seq::<
                    Node,
                >::empty());
                lemma_push_node(a1, arena@[node.0 as int]);
                lemma_ctx_wf_prefix(ctx@, a1, arena@);
                assert(lowered(expr, false, ctx@, arena@, node));
            }
            Ok((node, name))
        },
        Expr::AnonymousFunction { input, function, output_type, options, fmt_str } => {
            let ghost in_g = input@;
            let ghost fun_g = function;
            let ghost ot_g = output_type;
            let input_empty = input.len() == 0;
            let irs = to_expr_irs_with_context(input, ctx, arena)?;
            let ghost a1 = arena@;
            if let Some(col) = &function.required_column {
                if !ctx.schema.contains(col) {
                    return Err(crate::error::IrError::UdfColumnNotFound(col.clone()));
                }
            }
            if let Some(col) = &output_type.required_column {
                if !ctx.schema.contains(col) {
                    return Err(crate::error::IrError::UdfColumnNotFound(col.clone()));
                }
            }
            let name: String = if input_empty {
                fmt_str.clone()
            } else {
                proof {
                    lemma_lowered_irs_index(in_g, ctx@, a1, irs@, 0);
                }
                match irs[0].output_name() {
                    Some(s) => s.clone(),
                    None => {
                        proof {
                            assert(false);
                        }
                        String::new()
                    },
                }
            };
            let ghost irs_g = irs@;
            let node = arena.add(
                AExpr::AnonymousFunction { input: irs, function, output_type, options, fmt_str },
            );
            proof {
                let v = arena@[node.0 as int];
                assert forall|i: int|
                    0 <= i < crate::aexpr::children_spec(v).len() implies (
                #[trigger] crate::aexpr::children_spec(v)[i]).0 < a1.len() && wf_node(
                    a1,
                    crate::aexpr::children_spec(v)[i].0 as int,
                ) by {
                    let cs = crate::aexpr::children_spec(v);
                    assert(cs[i] == irs_g[i].node_spec());
                    lemma_lowered_irs_index(in_g, ctx@, a1, irs_g, i);
                    lemma_lowered_wf(in_g[i], false, ctx@, a1, irs_g[i].node_spec());
                }
                lemma_push_node(a1, v);
                lemma_lowered_irs_prefix(in_g, ctx@, a1, arena@, irs_g);
                lemma_ctx_wf_prefix(ctx@, a1, arena@);
                if !input_empty {
                    lemma_lowered_irs_index(in_g, ctx@, arena@, irs_g, 0);
                }
                assert(lowered(expr, false, ctx@, arena@, node));
                assert(out_name(expr, arena@, node) == Some(name@));
            }
            Ok((node, name))
        },
        Expr::SubPlan => Err(crate::error::IrError::ExprKindNotAllowed),
        Expr::Selector => Err(crate::error::IrError::ExprKindNotAllowed),
        Expr::KeepName(inner) => {
            let ghost in_g = *inner;
            let (node, _name) = to_aexpr_impl(*inner, ctx, arena)?;
            proof {
                lemma_lowered_wf(in_g, false, ctx@, arena@, node);
            }
            match crate::aexpr::first_col_name(node, arena) {
                Some(name) => {
                    proof {
                        assert(lowered(expr, false, ctx@, arena@, node));
                    }
                    Ok((node, name))
                },
                None => {
                    proof {
                        if dsl_has_name_source(in_g) {
                            lemma_name_source_scan(in_g, false, ctx@, arena@, node);
                        }
                    }
                    Err(crate::error::IrError::KeepNameWithoutColumn)
                },
            }
        },
        Expr::RenameAlias { expr: inner, function } => {
            let ghost in_g = *inner;
            let (node, base) = to_aexpr_impl(*inner, ctx, arena)?;
            let name = function.apply(&base);
            proof {
                assert(lowered(expr, false, ctx@, arena@, node));
            }
            Ok((node, name))
        },
        Expr::Field(fname) => {
            match &ctx.with_fields {
                None => Err(crate::error::IrError::FieldOutsideStructContext),
                Some((input_node, with_fields)) => {
                    if !with_fields.contains(&fname) {
                        Err(crate::error::IrError::FieldDoesNotExist(fname))
                    } else {
                        let name = fname.clone();
                        let input_ir = ExprIR::new(
                            *input_node,
                            crate::aexpr::OutputName::Alias(String::new()),
                        );
                        let mut input: Vec<ExprIR> = Vec::new();
                        input.push(input_ir);
                        let options = crate::options::FunctionOptions::elementwise();
                        let ghost a1 = arena@;
                        let ghost input_node_g = *input_node;
                        let node = arena.add(
                            AExpr::Function {
                                input,
                                function: IRFunctionExpr::StructExpr(
                                    IRStructFunction::FieldByName(fname),
                                ),
                                options,
                            },
                        );
                        proof {
                            let v = arena@[node.0 as int];
                            assert(crate::aexpr::children_spec(v) =~= seq![input_node_g]);
                            lemma_push_node(a1, v);
                            lemma_ctx_wf_prefix(ctx@, a1, arena@);
                            assert(lowered(expr, false, ctx@, arena@, node));
                            assert(out_name(expr, arena@, node) == Some(name@));
                        }
                        Ok((node, name))
                    }
                },
            }
        },
    }
}

/// Finishing step shared by the single-input aggregations: pushing
/// the aggregation node preserves the input's lowering and name.
proof fn lemma_finish_agg(
    input_e: Expr,
    ctx: CtxV,
    a: Seq<AExpr>,
    b: Seq<AExpr>,
    v: AExpr,
    inn: Node,
)
    requires
        lowered(input_e, true, ctx, a, inn),
        b == a.push(v),
        v matches AExpr::Agg(ia) && !(ia is Quantile) && ia.input_spec() == inn,
    ensures
        prefix_of(a, b),
        wf_node(b, a.len() as int),
        b[a.len() as int] == v,
        lowered(input_e, true, ctx, b, inn),
        out_name(input_e, b, inn) == out_name(input_e, a, inn),
        ctx_wf(ctx, a) ==> ctx_wf(ctx, b),
{
    lemma_lowered_wf(input_e, true, ctx, a, inn);
    assert(crate::aexpr::children_spec(v) =~= seq![inn]);
    lemma_push_node(a, v);
    lemma_lowered_prefix(input_e, true, ctx, a, b, inn);
    if ctx_wf(ctx, a) {
        lemma_ctx_wf_prefix(ctx, a, b);
    }
}

/// Each entry of an element-wise lowered list is well-formed and in
/// bounds.
proof fn lemma_lowered_list_index_wf(
    es: Seq<Expr>,
    m: bool,
    ctx: CtxV,
    a: Seq<AExpr>,
    ns: Seq<Node>,
    i: int,
)
    requires
        lowered_list(es, m, ctx, a, ns),
        0 <= i < es.len(),
    ensures
        lowered(es[i], m, ctx, a, ns[i]),
        ns[i].0 < a.len(),
        wf_node(a, ns[i].0 as int),
    decreases i,
{
    if i == 0 {
        lemma_lowered_wf(es[0], m, ctx, a, ns[0]);
    } else {
        lemma_lowered_list_index_wf(es.drop_first(), m, ctx, a, ns.drop_first(), i - 1);
        assert(es.drop_first()[i - 1] == es[i]);
        assert(ns.drop_first()[i - 1] == ns[i]);
    }
}

/// Lowers an expression whose position forces eager materialization:
/// a bare deferred literal, under any chain of aliases, is pinned to
/// a concrete type right away; everything else lowers as usual.
pub fn to_aexpr_impl_materialized_lit(
    expr: Expr,
    ctx: &ExprToIRContext<'_>,
    arena: &mut crate::arena::Arena<AExpr>,
) -> (result: Result<(Node, String), crate::error::IrError>)
    requires
        ctx_wf(ctx@, old(arena)@),
    ensures
        prefix_of(old(arena)@, final(arena)@),
        ctx_wf(ctx@, final(arena)@),
        result matches Ok((n, name)) ==> lowered(expr, true, ctx@, final(arena)@, n)
            && out_name(expr, final(arena)@, n) == Some(name@),
        lower_total(expr, ctx@) ==> result is Ok,
        expr is SubPlan || expr is Selector ==> result == Err::<(Node, String), _>(
            crate::error::IrError::ExprKindNotAllowed,
        ) && final(arena)@ == old(arena)@,
        expr matches Expr::Field(f) ==> ((result is Ok) <==> (ctx@.with_fields matches Some(
            (n0, wf),
        ) && contains_name_spec(wf, f@))),
        expr matches Expr::Field(f) ==> (ctx@.with_fields is None ==> result == Err::<
            (Node, String),
            _,
        >(crate::error::IrError::FieldOutsideStructContext) && final(arena)@ == old(arena)@),
        expr matches Expr::Field(f) ==> match ctx@.with_fields {
            Some((n0, wf)) => !contains_name_spec(wf, f@) ==> (result matches Err(e)
                && e matches crate::error::IrError::FieldDoesNotExist(missing) && missing@ == f@)
                && final(arena)@ == old(arena)@,
            None => true,
        },
        expr matches Expr::KeepName(inner) && lower_total(*inner, ctx@) ==> (result is Ok || result
            == Err::<(Node, String), _>(crate::error::IrError::KeepNameWithoutColumn)),
        eval_failure_pinned(expr, ctx@, result),
    decreases expr, 1nat,
{
    match expr {
        Expr::Literal(lv) => {
            let name = lv.output_column_name();
            let ghost a1 = arena@;
            let ghost v = AExpr::Literal(materialize_spec(lv));
            let node = arena.add(AExpr::Literal(lv.materialize()));
            proof {
                assert(crate::aexpr::children_spec(v) =~= Seq::<Node>::empty());
                lemma_push_node(a1, v);
                lemma_ctx_wf_prefix(ctx@, a1, arena@);
                assert(lowered(expr, true, ctx@, arena@, node));
            }
            Ok((node, name))
        },
        Expr::Alias(inner, al) => {
            let ghost in_g = *inner;
            let (node, _name) = to_aexpr_impl_materialized_lit(*inner, ctx, arena)?;
            proof {
                assert(lowered(expr, true, ctx@, arena@, node));
            }
            Ok((node, al))
        },
        other => {
            let ghost other_g = other;
            let r = to_aexpr_impl(other, ctx, arena);
            proof {
                match r {
                    Ok((n, _)) => {
                        assert(lowered(other_g, false, ctx@, arena@, n));
                        assert(lowered(other_g, true, ctx@, arena@, n));
                    },
                    Err(_) => {},
                }
            }
            r
        },
    }
}

/// The context of a lowering that starts outside any struct scope.
pub open spec fn plain_ctx(s: SchemaV) -> CtxV {
    CtxV { schema: s, with_fields: None }
}

/// Lowers one expression under an explicit context, wrapping the
/// resulting handle with its propagated output name as an explicit
/// alias.
pub fn to_expr_ir_with_context(
    expr: Expr,
    ctx: &ExprToIRContext<'_>,
    arena: &mut crate::arena::Arena<AExpr>,
) -> (result: Result<ExprIR, crate::error::IrError>)
    requires
        ctx_wf(ctx@, old(arena)@),
    ensures
        prefix_of(old(arena)@, final(arena)@),
        ctx_wf(ctx@, final(arena)@),
        result matches Ok(ir) ==> lowered_ir1(expr, ctx@, final(arena)@, ir),
        lower_total(expr, ctx@) ==> result is Ok,
        expr is SubPlan || expr is Selector ==> result == Err::<ExprIR, _>(
            crate::error::IrError::ExprKindNotAllowed,
        ) && final(arena)@ == old(arena)@,
        expr matches Expr::Field(f) ==> ((result is Ok) <==> (ctx@.with_fields matches Some(
            (n0, wf),
        ) && contains_name_spec(wf, f@))),
        expr matches Expr::Field(f) ==> (ctx@.with_fields is None ==> result == Err::<ExprIR, _>(
            crate::error::IrError::FieldOutsideStructContext,
        ) && final(arena)@ == old(arena)@),
        expr matches Expr::Field(f) ==> match ctx@.with_fields {
            Some((n0, wf)) => !contains_name_spec(wf, f@) ==> (result matches Err(e)
                && e matches crate::error::IrError::FieldDoesNotExist(missing) && missing@ == f@)
                && final(arena)@ == old(arena)@,
            None => true,
        },
        expr matches Expr::KeepName(inner) && lower_total(*inner, ctx@) ==> (result is Ok || result
            == Err::<ExprIR, _>(crate::error::IrError::KeepNameWithoutColumn)),
{
    let ghost e_g = expr;
    let (node, name) = to_aexpr_impl(expr, ctx, arena)?;
    let ir = ExprIR::new(node, crate::aexpr::OutputName::Alias(name));
    proof {
        assert(lowered_ir1(e_g, ctx@, arena@, ir));
    }
    Ok(ir)
}

/// Lowers one expression against a schema, outside any struct scope.
pub fn to_expr_ir(
    expr: Expr,
    arena: &mut crate::arena::Arena<AExpr>,
    schema: &Schema,
) -> (result: Result<ExprIR, crate::error::IrError>)
    ensures
        prefix_of(old(arena)@, final(arena)@),
        result matches Ok(ir) ==> lowered_ir1(expr, plain_ctx(schema@), final(arena)@, ir),
        lower_total(expr, plain_ctx(schema@)) ==> result is Ok,
        expr is SubPlan || expr is Selector ==> result == Err::<ExprIR, _>(
            crate::error::IrError::ExprKindNotAllowed,
        ) && final(arena)@ == old(arena)@,
        expr is Field ==> result == Err::<ExprIR, _>(
            crate::error::IrError::FieldOutsideStructContext,
        ) && final(arena)@ == old(arena)@,
        expr matches Expr::KeepName(inner) && lower_total(*inner, plain_ctx(schema@)) ==> (result
            is Ok || result == Err::<ExprIR, _>(crate::error::IrError::KeepNameWithoutColumn)),
{
    let ctx = ExprToIRContext { with_fields: None, schema };
    to_expr_ir_with_context(expr, &ctx, arena)
}

/// Lowers one expression against a schema with its position treated
/// as materializing: a bare deferred literal is pinned to a concrete
/// type immediately.
pub fn to_expr_ir_materialized_lit(
    expr: Expr,
    arena: &mut crate::arena::Arena<AExpr>,
    schema: &Schema,
) -> (result: Result<ExprIR, crate::error::IrError>)
    ensures
        prefix_of(old(arena)@, final(arena)@),
        result matches Ok(ir) ==> lowered(expr, true, plain_ctx(schema@), final(arena)@, ir.node_spec())
            && ir.alias_spec() == out_name(expr, final(arena)@, ir.node_spec())
            && ir.alias_spec() is Some,
        lower_total(expr, plain_ctx(schema@)) ==> result is Ok,
{
    let ctx = ExprToIRContext { with_fields: None, schema };
    let (node, name) = to_aexpr_impl_materialized_lit(expr, &ctx, arena)?;
    Ok(ExprIR::new(node, crate::aexpr::OutputName::Alias(name)))
}

/// Lowers a list of expressions against a schema, outside any struct
/// scope.
pub fn to_expr_irs(
    input: Vec<Expr>,
    arena: &mut crate::arena::Arena<AExpr>,
    schema: &Schema,
) -> (result: Result<Vec<ExprIR>, crate::error::IrError>)
    ensures
        prefix_of(old(arena)@, final(arena)@),
        result matches Ok(irs) ==> lowered_irs(input@, plain_ctx(schema@), final(arena)@, irs@),
        lower_total_list(input@, plain_ctx(schema@)) ==> result is Ok,
{
    let ctx = ExprToIRContext { with_fields: None, schema };
    to_expr_irs_with_context(input, &ctx, arena)
}

} // verus!
