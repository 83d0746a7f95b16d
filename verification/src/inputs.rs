//! Generic extraction and reconstruction of plan nodes.
//!
//! Every tree-rewriting optimizer pass works through three
//! primitives: [`IR::copy_exprs`] pulls the expressions a node owns
//! into a container in a fixed canonical order, [`IR::copy_inputs`]
//! does the same for its child plan handles, and
//! [`IR::with_exprs_and_input`] rebuilds a node of the same variant
//! from freshly rewritten containers populated in those same orders,
//! carrying all non-tree metadata over unchanged.
//!
//! Canonical orders: group-by lists keys before aggregations; join
//! lists left keys before right keys; a partitioned sink lists its
//! key expressions before its trailing per-partition sort
//! expressions; binary nodes list left before right; external-context
//! lists its extra frames before its primary input.

use vstd::prelude::*;

use crate::aexpr::ExprIR;
use crate::arena::Node;
use crate::ir::{clone_arc, PartitionSinkIR, PartitionVariantIR, SinkTypeIR, SortColumnIR, IR};

verus! {

/// The key expressions of a partition rule, canonical order.
pub open spec fn partition_key_exprs(variant: PartitionVariantIR) -> Seq<ExprIR> {
    match variant {
        PartitionVariantIR::MaxSize(_) => seq![],
        PartitionVariantIR::Parted { key_exprs, .. } => key_exprs@,
        PartitionVariantIR::ByKey { key_exprs, .. } => key_exprs@,
    }
}

/// The per-partition sort expressions of a partitioned sink.
pub open spec fn partition_sort_exprs(sort_by: Option<Vec<SortColumnIR>>) -> Seq<ExprIR> {
    match sort_by {
        Some(v) => v@.map_values(|sc: SortColumnIR| sc.expr),
        None => seq![],
    }
}

/// The expressions a sink payload owns: partition keys, then the
/// trailing per-partition sort expressions.
pub open spec fn sink_exprs_of(payload: SinkTypeIR) -> Seq<ExprIR> {
    match payload {
        SinkTypeIR::Partition(p) => partition_key_exprs(p.variant) + partition_sort_exprs(
            p.per_partition_sort_by,
        ),
        _ => seq![],
    }
}

/// Every expression a plan node owns, in canonical order.
pub open spec fn exprs_of(ir: IR) -> Seq<ExprIR> {
    match ir {
        IR::Sort { by_column, .. } => by_column@,
        IR::Filter { predicate, .. } => seq![predicate],
        IR::Select { expr, .. } => expr@,
        IR::GroupBy { keys, aggs, .. } => keys@ + aggs@,
        IR::Join { left_on, right_on, .. } => left_on@ + right_on@,
        IR::HStack { exprs, .. } => exprs@,
        IR::Scan { predicate, .. } => match predicate {
            Some(p) => seq![p],
            None => seq![],
        },
        IR::Sink { payload, .. } => sink_exprs_of(payload),
        _ => seq![],
    }
}

/// Every child plan handle of a node, in canonical order.
pub open spec fn inputs_of(ir: IR) -> Seq<Node> {
    match ir {
        IR::Union { inputs, .. } => inputs@,
        IR::HConcat { inputs, .. } => inputs@,
        IR::SinkMultiple { inputs } => inputs@,
        IR::Join { input_left, input_right, .. } => seq![input_left, input_right],
        IR::MergeSorted { input_left, input_right, .. } => seq![input_left, input_right],
        IR::ExtContext { input, contexts, .. } => contexts@.push(input),
        IR::Scan { .. } => seq![],
        IR::DataFrameScan { .. } => seq![],
        IR::Invalid => seq![],
        IR::Slice { input, .. } => seq![input],
        IR::Filter { input, .. } => seq![input],
        IR::SimpleProjection { input, .. } => seq![input],
        IR::Select { input, .. } => seq![input],
        IR::Sort { input, .. } => seq![input],
        IR::Cache { input, .. } => seq![input],
        IR::GroupBy { input, .. } => seq![input],
        IR::HStack { input, .. } => seq![input],
        IR::Distinct { input, .. } => seq![input],
        IR::MapFunction { input, .. } => seq![input],
        IR::Sink { input, .. } => seq![input],
    }
}

/// Appends copies of every element of `items` to `container`.
fn extend_exprs(container: &mut Vec<ExprIR>, items: &Vec<ExprIR>)
    ensures
        final(container)@ == old(container)@ + items@,
{
    let ghost base = container@;
    let mut i: usize = 0;
    while i < items.len()
        invariant
            i <= items@.len(),
            container@ == base + items@.take(i as int),
        decreases items@.len() - i,
    {
        container.push(items[i].duplicate());
        proof {
            assert(items@.take(i + 1) =~= items@.take(i as int).push(items@[i as int]));
            assert(container@ =~= base + items@.take(i + 1));
        }
        i = i + 1;
    }
    proof {
        assert(base + items@.take(items@.len() as int) =~= base + items@);
    }
}

/// Appends every handle of `items` to `container`.
fn extend_nodes(container: &mut Vec<Node>, items: &Vec<Node>)
    ensures
        final(container)@ == old(container)@ + items@,
{
    let ghost base = container@;
    let mut i: usize = 0;
    while i < items.len()
        invariant
            i <= items@.len(),
            container@ == base + items@.take(i as int),
        decreases items@.len() - i,
    {
        container.push(items[i]);
        proof {
            assert(items@.take(i + 1) =~= items@.take(i as int).push(items@[i as int]));
            assert(container@ =~= base + items@.take(i + 1));
        }
        i = i + 1;
    }
    proof {
        assert(base + items@.take(items@.len() as int) =~= base + items@);
    }
}

impl IR {
    /// Appends every expression this node owns to `container`, in
    /// canonical order.
    pub fn copy_exprs(&self, container: &mut Vec<ExprIR>)
        ensures
            final(container)@ == old(container)@ + exprs_of(*self),
    {
        let ghost base = container@;
        match self {
            IR::Sort { by_column, .. } => extend_exprs(container, by_column),
            IR::Filter { predicate, .. } => {
                container.push(predicate.duplicate());
                proof {
                    assert(container@ =~= base + exprs_of(*self));
                }
            },
            IR::Select { expr, .. } => extend_exprs(container, expr),
            IR::GroupBy { keys, aggs, .. } => {
                extend_exprs(container, keys);
                extend_exprs(container, aggs);
                proof {
                    assert(base + keys@ + aggs@ =~= base + (keys@ + aggs@));
                }
            },
            IR::Join { left_on, right_on, .. } => {
                extend_exprs(container, left_on);
                extend_exprs(container, right_on);
                proof {
                    assert(base + left_on@ + right_on@ =~= base + (left_on@ + right_on@));
                }
            },
            IR::HStack { exprs, .. } => extend_exprs(container, exprs),
            IR::Scan { predicate, .. } => {
                if let Some(pred) = predicate {
                    container.push(pred.duplicate());
                }
                proof {
                    assert(container@ =~= base + exprs_of(*self));
                }
            },
            IR::Sink { payload, .. } => {
                if let SinkTypeIR::Partition(p) = payload {
                    match &p.variant {
                        PartitionVariantIR::Parted { key_exprs, .. } => {
                            extend_exprs(container, key_exprs);
                        },
                        PartitionVariantIR::ByKey { key_exprs, .. } => {
                            extend_exprs(container, key_exprs);
                        },
                        PartitionVariantIR::MaxSize(_) => {},
                    }
                    if let Some(sort_by) = &p.per_partition_sort_by {
                        let ghost mid = container@;
                        let mut i: usize = 0;
                        while i < sort_by.len()
                            invariant
                                i <= sort_by@.len(),
                                container@ == mid + sort_by@.take(i as int).map_values(
                                    |sc: SortColumnIR| sc.expr,
                                ),
                            decreases sort_by@.len() - i,
                        {
                            container.push(sort_by[i].expr.duplicate());
                            proof {
                                assert(sort_by@.take(i + 1) =~= sort_by@.take(i as int).push(
                                    sort_by@[i as int],
                                ));
                                assert(container@ =~= mid + sort_by@.take(i + 1).map_values(
                                    |sc: SortColumnIR| sc.expr,
                                ));
                            }
                            i = i + 1;
                        }
                        proof {
                            assert(sort_by@.take(sort_by@.len() as int) =~= sort_by@);
                        }
                    }
                }
                proof {
                    assert(container@ =~= base + exprs_of(*self));
                }
            },
            _ => {
                proof {
                    assert(container@ =~= base + exprs_of(*self));
                }
            },
        }
    }

    /// Every expression this node owns, in canonical order.
    pub fn get_exprs(&self) -> (result: Vec<ExprIR>)
        ensures
            result@ == exprs_of(*self),
    {
        let mut exprs: Vec<ExprIR> = Vec::new();
        self.copy_exprs(&mut exprs);
        proof {
            assert(exprs@ =~= exprs_of(*self));
        }
        exprs
    }

    /// Appends every child plan handle of this node to `container`,
    /// in canonical order.
    pub fn copy_inputs(&self, container: &mut Vec<Node>)
        ensures
            final(container)@ == old(container)@ + inputs_of(*self),
    {
        let ghost base = container@;
        let input: Node = match self {
            IR::Union { inputs, .. } => {
                extend_nodes(container, inputs);
                return;
            },
            IR::HConcat { inputs, .. } => {
                extend_nodes(container, inputs);
                return;
            },
            IR::SinkMultiple { inputs } => {
                extend_nodes(container, inputs);
                return;
            },
            IR::Join { input_left, input_right, .. } => {
                container.push(*input_left);
                container.push(*input_right);
                proof {
                    assert(container@ =~= base + inputs_of(*self));
                }
                return;
            },
            IR::MergeSorted { input_left, input_right, .. } => {
                container.push(*input_left);
                container.push(*input_right);
                proof {
                    assert(container@ =~= base + inputs_of(*self));
                }
                return;
            },
            IR::ExtContext { input, contexts, .. } => {
                extend_nodes(container, contexts);
                container.push(*input);
                proof {
                    assert(container@ =~= base + inputs_of(*self));
                }
                return;
            },
            IR::Scan { .. } => {
                proof {
                    assert(container@ =~= base + inputs_of(*self));
                }
                return;
            },
            IR::DataFrameScan { .. } => {
                proof {
                    assert(container@ =~= base + inputs_of(*self));
                }
                return;
            },
            IR::Invalid => {
                proof {
                    assert(container@ =~= base + inputs_of(*self));
                }
                return;
            },
            IR::Slice { input, .. } => *input,
            IR::Filter { input, .. } => *input,
            IR::SimpleProjection { input, .. } => *input,
            IR::Select { input, .. } => *input,
            IR::Sort { input, .. } => *input,
            IR::Cache { input, .. } => *input,
            IR::GroupBy { input, .. } => *input,
            IR::HStack { input, .. } => *input,
            IR::Distinct { input, .. } => *input,
            IR::MapFunction { input, .. } => *input,
            IR::Sink { input, .. } => *input,
        };
        container.push(input);
        proof {
            assert(container@ =~= base + inputs_of(*self));
        }
    }

    /// Every child plan handle of this node, in canonical order.
    pub fn get_inputs(&self) -> (result: Vec<Node>)
        ensures
            result@ == inputs_of(*self),
    {
        let mut inputs: Vec<Node> = Vec::new();
        self.copy_inputs(&mut inputs);
        proof {
            assert(inputs@ =~= inputs_of(*self));
        }
        inputs
    }

    /// Every child plan handle of this node, in canonical order.
    pub fn get_inputs_vec(&self) -> (result: Vec<Node>)
        ensures
            result@ == inputs_of(*self),
    {
        self.get_inputs()
    }

    /// Rebuilds a node of this node's variant from freshly rewritten
    /// expressions and child handles, supplied in the same canonical
    /// orders that [`IR::copy_exprs`] and [`IR::copy_inputs`] use;
    /// all non-tree metadata is carried over unchanged.
    pub fn with_exprs_and_input(&self, exprs: Vec<ExprIR>, inputs: Vec<Node>) -> (result: IR)
        requires
            !(*self is Invalid),
            exprs@.len() == exprs_of(*self).len(),
            inputs@.len() == inputs_of(*self).len(),
        ensures
            reconstructs(*self, exprs@, inputs@, result),
    {
        let ghost exprs0 = exprs@;
        let ghost inputs0 = inputs@;
        let mut exprs = exprs;
        let mut inputs = inputs;
        match self {
            IR::Slice { input: _, offset, len } => IR::Slice {
                input: inputs[0],
                offset: *offset,
                len: *len,
            },
            IR::Filter { .. } => IR::Filter { input: inputs[0], predicate: exprs.remove(0) },
            IR::Scan {
                sources,
                file_info,
                predicate,
                output_schema,
                scan_type,
                unified_scan_args,
            } => IR::Scan {
                sources: sources.duplicate(),
                file_info: file_info.duplicate(),
                predicate: if predicate.is_some() {
                    let last = exprs.len() - 1;
                    Some(exprs.remove(last))
                } else {
                    None
                },
                output_schema: match output_schema {
                    Some(s) => Some(clone_arc(s)),
                    None => None,
                },
                scan_type: *scan_type,
                unified_scan_args: *unified_scan_args,
            },
            IR::DataFrameScan { df, schema, output_schema } => IR::DataFrameScan {
                df: clone_arc(df),
                schema: clone_arc(schema),
                output_schema: match output_schema {
                    Some(s) => Some(clone_arc(s)),
                    None => None,
                },
            },
            IR::SimpleProjection { input: _, columns } => IR::SimpleProjection {
                input: inputs[0],
                columns: clone_arc(columns),
            },
            IR::Select { input: _, expr: _, schema, options } => IR::Select {
                input: inputs[0],
                expr: exprs,
                schema: clone_arc(schema),
                options: *options,
            },
            IR::Sort { input: _, by_column: _, slice, sort_options } => IR::Sort {
                input: inputs[0],
                by_column: exprs,
                slice: *slice,
                sort_options: sort_options.deep_clone(),
            },
            IR::Cache { input: _, id, cache_hits } => IR::Cache {
                input: inputs[0],
                id: *id,
                cache_hits: *cache_hits,
            },
            IR::GroupBy { input: _, keys, aggs: _, schema, maintain_order, options, apply } => {
                let key_count = keys.len();
                let aggs_new = exprs.split_off(key_count);
                IR::GroupBy {
                    input: inputs[0],
                    keys: exprs,
                    aggs: aggs_new,
                    schema: clone_arc(schema),
                    maintain_order: *maintain_order,
                    options: clone_arc(options),
                    apply: *apply,
                }
            },
            IR::Join { input_left: _, input_right: _, schema, left_on, right_on: _, options } => {
                let left_count = left_on.len();
                let right_new = exprs.split_off(left_count);
                IR::Join {
                    input_left: inputs[0],
                    input_right: inputs[1],
                    schema: clone_arc(schema),
                    left_on: exprs,
                    right_on: right_new,
                    options: clone_arc(options),
                }
            },
            IR::HStack { input: _, exprs: _, schema, options } => IR::HStack {
                input: inputs[0],
                exprs,
                schema: clone_arc(schema),
                options: *options,
            },
            IR::Distinct { input: _, options } => IR::Distinct {
                input: inputs[0],
                options: options.duplicate(),
            },
            IR::MapFunction { input: _, function } => IR::MapFunction {
                input: inputs[0],
                function: *function,
            },
            IR::Union { inputs: _, options } => IR::Union { inputs, options: *options },
            IR::HConcat { inputs: _, schema, options } => IR::HConcat {
                inputs,
                schema: clone_arc(schema),
                options: *options,
            },
            IR::ExtContext { input: _, contexts: _, schema } => {
                let last = inputs.len() - 1;
                let input = inputs.remove(last);
                IR::ExtContext { input, contexts: inputs, schema: clone_arc(schema) }
            },
            IR::Sink { input: _, payload } => {
                let payload_new: SinkTypeIR = match payload {
                    SinkTypeIR::Memory => SinkTypeIR::Memory,
                    SinkTypeIR::File(path) => SinkTypeIR::File(clone_arc(path)),
                    SinkTypeIR::Partition(p) => {
                        let ghost key_count = partition_key_exprs(p.variant).len() as int;
                        let sort_count = match &p.per_partition_sort_by {
                            Some(sort_by) => sort_by.len(),
                            None => 0,
                        };
                        let mut sort_part = exprs.split_off(exprs.len() - sort_count);
                        proof {
                            assert(exprs@ =~= exprs0.take(key_count));
                            assert(sort_part@ =~= exprs0.skip(key_count));
                        }
                        let sort_new: Option<Vec<SortColumnIR>> = match &p.per_partition_sort_by {
                            Some(sort_by) => {
                                let mut rebuilt: Vec<SortColumnIR> = Vec::new();
                                let mut i: usize = 0;
                                while i < sort_by.len()
                                    invariant
                                        i <= sort_by@.len(),
                                        sort_by@.len() <= exprs0.len(),
                                        key_count + sort_by@.len() == exprs0.len(),
                                        sort_part@.len() == sort_by@.len() - i,
                                        rebuilt@.len() == i,
                                        forall|k: int|
                                            0 <= k < sort_part@.len()
                                                ==> #[trigger] sort_part@[k] == exprs0[key_count
                                                + i + k],
                                        forall|k: int|
                                            0 <= k < i ==> (#[trigger] rebuilt@[k]).expr
                                                == exprs0[key_count + k] && rebuilt@[k].descending
                                                == sort_by@[k].descending
                                                && rebuilt@[k].nulls_last
                                                == sort_by@[k].nulls_last,
                                    decreases sort_by@.len() - i,
                                {
                                    let e = sort_part.remove(0);
                                    rebuilt.push(
                                        SortColumnIR {
                                            expr: e,
                                            descending: sort_by[i].descending,
                                            nulls_last: sort_by[i].nulls_last,
                                        },
                                    );
                                    i = i + 1;
                                }
                                Some(rebuilt)
                            },
                            None => None,
                        };
                        let variant_new: PartitionVariantIR = match &p.variant {
                            PartitionVariantIR::MaxSize(m) => PartitionVariantIR::MaxSize(*m),
                            PartitionVariantIR::Parted { key_exprs: _, include_key } => {
                                PartitionVariantIR::Parted {
                                    key_exprs: exprs,
                                    include_key: *include_key,
                                }
                            },
                            PartitionVariantIR::ByKey { key_exprs: _, include_key } => {
                                PartitionVariantIR::ByKey {
                                    key_exprs: exprs,
                                    include_key: *include_key,
                                }
                            },
                        };
                        SinkTypeIR::Partition(
                            PartitionSinkIR {
                                base_path: clone_arc(&p.base_path),
                                variant: variant_new,
                                per_partition_sort_by: sort_new,
                            },
                        )
                    },
                };
                IR::Sink { input: inputs[0], payload: payload_new }
            },
            IR::SinkMultiple { .. } => IR::SinkMultiple { inputs },
            IR::MergeSorted { input_left: _, input_right: _, key } => IR::MergeSorted {
                input_left: inputs[0],
                input_right: inputs[1],
                key: key.clone(),
            },
            IR::Invalid => IR::Invalid,
        }
    }
}

/// How a rebuilt sink payload relates to the original and the
/// supplied expressions: identical except that partition keys come
/// from the leading expressions and per-partition sort expressions
/// from the trailing ones.
pub open spec fn sink_reconstructs(
    orig: SinkTypeIR,
    exprs: Seq<ExprIR>,
    result: SinkTypeIR,
) -> bool {
    match orig {
        SinkTypeIR::Memory => result is Memory,
        SinkTypeIR::File(path) => result matches SinkTypeIR::File(rp) && rp == path,
        SinkTypeIR::Partition(p) => result matches SinkTypeIR::Partition(rp)
            && rp.base_path == p.base_path && {
            let key_count = partition_key_exprs(p.variant).len() as int;
            &&& match p.variant {
                PartitionVariantIR::MaxSize(m) => rp.variant == PartitionVariantIR::MaxSize(m),
                PartitionVariantIR::Parted { key_exprs: _, include_key } => rp.variant
                    matches PartitionVariantIR::Parted { key_exprs: rk, include_key: ri } && ri
                    == include_key && rk@ == exprs.take(key_count),
                PartitionVariantIR::ByKey { key_exprs: _, include_key } => rp.variant
                    matches PartitionVariantIR::ByKey { key_exprs: rk, include_key: ri } && ri
                    == include_key && rk@ == exprs.take(key_count),
            }
            &&& match p.per_partition_sort_by {
                None => rp.per_partition_sort_by is None,
                Some(sort_by) => rp.per_partition_sort_by matches Some(rs) && rs@.len()
                    == sort_by@.len() && forall|k: int|
                    0 <= k < sort_by@.len() ==> (#[trigger] rs@[k]).expr == exprs[key_count + k]
                        && rs@[k].descending == sort_by@[k].descending && rs@[k].nulls_last
                        == sort_by@[k].nulls_last,
            }
        },
    }
}

/// How the node [`IR::with_exprs_and_input`] returns relates to the
/// original node and the supplied containers: the same variant, tree
/// fields replaced by the canonical slices of `exprs` and `inputs`,
/// every other field carried over unchanged.
pub open spec fn reconstructs(orig: IR, exprs: Seq<ExprIR>, inputs: Seq<Node>, result: IR) -> bool {
    match orig {
        IR::Slice { input: _, offset, len } => result matches IR::Slice {
            input: ri,
            offset: ro,
            len: rl,
        } && ri == inputs[0] && ro == offset && rl == len,
        IR::Filter { input: _, predicate: _ } => result matches IR::Filter {
            input: ri,
            predicate: rp,
        } && ri == inputs[0] && rp == exprs[0],
        IR::Scan { sources, file_info, predicate, output_schema, scan_type, unified_scan_args } =>
            result matches IR::Scan {
            sources: r_sources,
            file_info: r_file_info,
            predicate: r_predicate,
            output_schema: r_output_schema,
            scan_type: r_scan_type,
            unified_scan_args: r_args,
        } && r_sources == sources && r_file_info == file_info && r_output_schema == output_schema
            && r_scan_type == scan_type && r_args == unified_scan_args && match predicate {
            Some(_) => r_predicate == Some(exprs.last()),
            None => r_predicate is None,
        },
        IR::DataFrameScan { df, schema, output_schema } => result matches IR::DataFrameScan {
            df: r_df,
            schema: r_schema,
            output_schema: r_output_schema,
        } && r_df == df && r_schema == schema && r_output_schema == output_schema,
        IR::SimpleProjection { input: _, columns } => result matches IR::SimpleProjection {
            input: ri,
            columns: rc,
        } && ri == inputs[0] && rc == columns,
        IR::Select { input: _, expr: _, schema, options } => result matches IR::Select {
            input: ri,
            expr: re,
            schema: rs,
            options: ro,
        } && ri == inputs[0] && re@ == exprs && rs == schema && ro == options,
        IR::Sort { input: _, by_column: _, slice, sort_options } => result matches IR::Sort {
            input: ri,
            by_column: rb,
            slice: rsl,
            sort_options: rso,
        } && ri == inputs[0] && rb@ == exprs && rsl == slice && rso.obs_eq(&sort_options),
        IR::Cache { input: _, id, cache_hits } => result matches IR::Cache {
            input: ri,
            id: rid,
            cache_hits: rch,
        } && ri == inputs[0] && rid == id && rch == cache_hits,
        IR::GroupBy { input: _, keys, aggs: _, schema, maintain_order, options, apply } => result
            matches IR::GroupBy {
            input: ri,
            keys: rk,
            aggs: ra,
            schema: rs,
            maintain_order: rm,
            options: ro,
            apply: rap,
        } && ri == inputs[0] && rk@ == exprs.take(keys@.len() as int) && ra@ == exprs.skip(
            keys@.len() as int,
        ) && rs == schema && rm == maintain_order && ro == options && rap == apply,
        IR::Join { input_left: _, input_right: _, schema, left_on, right_on: _, options } => result
            matches IR::Join {
            input_left: rl,
            input_right: rr,
            schema: rs,
            left_on: rlo,
            right_on: rro,
            options: ro,
        } && rl == inputs[0] && rr == inputs[1] && rs == schema && rlo@ == exprs.take(
            left_on@.len() as int,
        ) && rro@ == exprs.skip(left_on@.len() as int) && ro == options,
        IR::HStack { input: _, exprs: _, schema, options } => result matches IR::HStack {
            input: ri,
            exprs: re,
            schema: rs,
            options: ro,
        } && ri == inputs[0] && re@ == exprs && rs == schema && ro == options,
        IR::Distinct { input: _, options } => result matches IR::Distinct {
            input: ri,
            options: ro,
        } && ri == inputs[0] && ro == options,
        IR::MapFunction { input: _, function } => result matches IR::MapFunction {
            input: ri,
            function: rf,
        } && ri == inputs[0] && rf == function,
        IR::Union { inputs: _, options } => result matches IR::Union {
            inputs: ri,
            options: ro,
        } && ri@ == inputs && ro == options,
        IR::HConcat { inputs: _, schema, options } => result matches IR::HConcat {
            inputs: ri,
            schema: rs,
            options: ro,
        } && ri@ == inputs && rs == schema && ro == options,
        IR::ExtContext { input: _, contexts: _, schema } => result matches IR::ExtContext {
            input: ri,
            contexts: rc,
            schema: rs,
        } && ri == inputs.last() && rc@ == inputs.drop_last() && rs == schema,
        IR::Sink { input: _, payload } => result matches IR::Sink { input: ri, payload: rp } && ri
            == inputs[0] && sink_reconstructs(payload, exprs, rp),
        IR::SinkMultiple { inputs: _ } => result matches IR::SinkMultiple { inputs: ri } && ri@
            == inputs,
        IR::MergeSorted { input_left: _, input_right: _, key } => result matches IR::MergeSorted {
            input_left: rl,
            input_right: rr,
            key: rk,
        } && rl == inputs[0] && rr == inputs[1] && rk == key,
        IR::Invalid => result is Invalid,
    }
}

/// Observational equality of sink payloads: equal in every field,
/// with expression lists compared element by element.
pub open spec fn sink_eq(a: SinkTypeIR, b: SinkTypeIR) -> bool {
    match a {
        SinkTypeIR::Memory => b is Memory,
        SinkTypeIR::File(pa) => b matches SinkTypeIR::File(pb) && pa == pb,
        SinkTypeIR::Partition(pa) => b matches SinkTypeIR::Partition(pb) && pa.base_path
            == pb.base_path && match pa.variant {
            PartitionVariantIR::MaxSize(m) => pb.variant == PartitionVariantIR::MaxSize(m),
            PartitionVariantIR::Parted { key_exprs: ka, include_key: ia } => pb.variant
                matches PartitionVariantIR::Parted { key_exprs: kb, include_key: ib } && ia == ib
                && ka@ == kb@,
            PartitionVariantIR::ByKey { key_exprs: ka, include_key: ia } => pb.variant
                matches PartitionVariantIR::ByKey { key_exprs: kb, include_key: ib } && ia == ib
                && ka@ == kb@,
        } && match pa.per_partition_sort_by {
            None => pb.per_partition_sort_by is None,
            Some(sa) => pb.per_partition_sort_by matches Some(sb) && sa@ == sb@,
        },
    }
}

/// Observational equality of plan nodes: the same variant, with every
/// field equal; containers are compared by their contents.
pub open spec fn ir_eq(a: IR, b: IR) -> bool {
    match a {
        IR::Slice { input, offset, len } => b matches IR::Slice {
            input: bi,
            offset: bo,
            len: bl,
        } && input == bi && offset == bo && len == bl,
        IR::Filter { input, predicate } => b matches IR::Filter { input: bi, predicate: bp }
            && input == bi && predicate == bp,
        IR::Scan { sources, file_info, predicate, output_schema, scan_type, unified_scan_args } =>
            b matches IR::Scan {
            sources: bs,
            file_info: bf,
            predicate: bp,
            output_schema: bos,
            scan_type: bst,
            unified_scan_args: ba,
        } && sources == bs && file_info == bf && predicate == bp && output_schema == bos
            && scan_type == bst && unified_scan_args == ba,
        IR::DataFrameScan { df, schema, output_schema } => b matches IR::DataFrameScan {
            df: bd,
            schema: bs,
            output_schema: bos,
        } && df == bd && schema == bs && output_schema == bos,
        IR::SimpleProjection { input, columns } => b matches IR::SimpleProjection {
            input: bi,
            columns: bc,
        } && input == bi && columns == bc,
        IR::Select { input, expr, schema, options } => b matches IR::Select {
            input: bi,
            expr: be,
            schema: bs,
            options: bo,
        } && input == bi && expr@ == be@ && schema == bs && options == bo,
        IR::Sort { input, by_column, slice, sort_options } => b matches IR::Sort {
            input: bi,
            by_column: bb,
            slice: bsl,
            sort_options: bso,
        } && input == bi && by_column@ == bb@ && slice == bsl && sort_options.obs_eq(&bso),
        IR::Cache { input, id, cache_hits } => b matches IR::Cache {
            input: bi,
            id: bid,
            cache_hits: bch,
        } && input == bi && id == bid && cache_hits == bch,
        IR::GroupBy { input, keys, aggs, schema, maintain_order, options, apply } => b
            matches IR::GroupBy {
            input: bi,
            keys: bk,
            aggs: bag,
            schema: bs,
            maintain_order: bm,
            options: bo,
            apply: bap,
        } && input == bi && keys@ == bk@ && aggs@ == bag@ && schema == bs && maintain_order == bm
            && options == bo && apply == bap,
        IR::Join { input_left, input_right, schema, left_on, right_on, options } => b
            matches IR::Join {
            input_left: bl,
            input_right: br,
            schema: bs,
            left_on: blo,
            right_on: bro,
            options: bo,
        } && input_left == bl && input_right == br && schema == bs && left_on@ == blo@ && right_on@
            == bro@ && options == bo,
        IR::HStack { input, exprs, schema, options } => b matches IR::HStack {
            input: bi,
            exprs: be,
            schema: bs,
            options: bo,
        } && input == bi && exprs@ == be@ && schema == bs && options == bo,
        IR::Distinct { input, options } => b matches IR::Distinct { input: bi, options: bo }
            && input == bi && options == bo,
        IR::MapFunction { input, function } => b matches IR::MapFunction {
            input: bi,
            function: bf,
        } && input == bi && function == bf,
        IR::Union { inputs, options } => b matches IR::Union { inputs: bi, options: bo } && inputs@
            == bi@ && options == bo,
        IR::HConcat { inputs, schema, options } => b matches IR::HConcat {
            inputs: bi,
            schema: bs,
            options: bo,
        } && inputs@ == bi@ && schema == bs && options == bo,
        IR::ExtContext { input, contexts, schema } => b matches IR::ExtContext {
            input: bi,
            contexts: bc,
            schema: bs,
        } && input == bi && contexts@ == bc@ && schema == bs,
        IR::Sink { input, payload } => b matches IR::Sink { input: bi, payload: bp } && input == bi
            && sink_eq(payload, bp),
        IR::SinkMultiple { inputs } => b matches IR::SinkMultiple { inputs: bi } && inputs@ == bi@,
        IR::MergeSorted { input_left, input_right, key } => b matches IR::MergeSorted {
            input_left: bl,
            input_right: br,
            key: bk,
        } && input_left == bl && input_right == br && key == bk,
        IR::Invalid => b is Invalid,
    }
}

/// The round-trip law: extracting a node's expressions and inputs
/// with [`IR::copy_exprs`] and [`IR::copy_inputs`] and rebuilding it
/// with [`IR::with_exprs_and_input`] from exactly those values yields
/// a node equal to the original in every observable field.
pub proof fn lemma_round_trip(orig: IR, rebuilt: IR)
    requires
        !(orig is Invalid),
        reconstructs(orig, exprs_of(orig), inputs_of(orig), rebuilt),
    ensures
        ir_eq(rebuilt, orig),
{
    match orig {
        IR::GroupBy { keys, aggs, .. } => {
            assert((keys@ + aggs@).take(keys@.len() as int) =~= keys@);
            assert((keys@ + aggs@).skip(keys@.len() as int) =~= aggs@);
        },
        IR::Join { left_on, right_on, .. } => {
            assert((left_on@ + right_on@).take(left_on@.len() as int) =~= left_on@);
            assert((left_on@ + right_on@).skip(left_on@.len() as int) =~= right_on@);
        },
        IR::ExtContext { input, contexts, .. } => {
            assert(contexts@.push(input).last() == input);
            assert(contexts@.push(input).drop_last() =~= contexts@);
        },
        IR::Sink { payload, .. } => {
            match payload {
                SinkTypeIR::Partition(p) => {
                    let keys = partition_key_exprs(p.variant);
                    let sorts = partition_sort_exprs(p.per_partition_sort_by);
                    assert((keys + sorts).take(keys.len() as int) =~= keys);
                    match (p.per_partition_sort_by, rebuilt) {
                        (Some(sa), IR::Sink { payload: SinkTypeIR::Partition(rp), .. }) => {
                            match rp.per_partition_sort_by {
                                Some(sb) => {
                                    assert forall|k: int| 0 <= k < sa@.len() implies sa@[k]
                                        == sb@[k] by {
                                        assert(sb@[k].expr == (keys + sorts)[keys.len() + k]);
                                        assert(sorts[k] == sa@[k].expr);
                                        assert(sa@[k] == (SortColumnIR {
                                            expr: sa@[k].expr,
                                            descending: sa@[k].descending,
                                            nulls_last: sa@[k].nulls_last,
                                        }));
                                        assert(sb@[k] == (SortColumnIR {
                                            expr: sb@[k].expr,
                                            descending: sb@[k].descending,
                                            nulls_last: sb@[k].nulls_last,
                                        }));
                                    }
                                    assert(sa@ =~= sb@);
                                },
                                None => {},
                            }
                        },
                        _ => {},
                    }
                },
                _ => {},
            }
        },
        _ => {},
    }
}

} // verus!
