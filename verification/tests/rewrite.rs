//! The rewrite round trip: for every plan-node variant, extracting
//! its expressions and child handles and rebuilding it from exactly
//! those values yields a node equal to the original in every field;
//! the canonical extraction orders are what the reconstruction
//! expects.

use std::sync::Arc;

use polars_plan::aexpr::{ExprIR, OutputName};
use polars_plan::arena::Node;
use polars_plan::dtypes::{DataType, Schema};
use polars_plan::ir::{
    DataFrame, FileInfo, FileScanIR, FunctionIR, GroupbyOptions, HConcatOptions, JoinOptionsIR,
    JoinType, PartitionSinkIR, PartitionVariantIR, ScanSources, SinkTypeIR, SortColumnIR,
    UnifiedScanArgs, UnionOptions, IR,
};
use polars_plan::options::{
    DistinctOptionsIR, ProjectionOptions, SortMultipleOptions, UniqueKeepStrategy,
};

fn eir(node: usize, name: &str) -> ExprIR {
    ExprIR::new(Node(node), OutputName::Alias(name.to_string()))
}

fn schema_ab() -> Arc<Schema> {
    Arc::new(
        Schema::new()
            .with_field("a".to_string(), DataType::Int64)
            .with_field("b".to_string(), DataType::Utf8),
    )
}

fn round_trip(node: &IR) -> IR {
    let exprs = node.get_exprs();
    let inputs = node.get_inputs();
    node.with_exprs_and_input(exprs, inputs)
}

#[test]
fn round_trip_slice() {
    let node = IR::Slice { input: Node(3), offset: -2, len: 10 };
    assert_eq!(round_trip(&node), node);
}

#[test]
fn round_trip_filter() {
    let node = IR::Filter { input: Node(1), predicate: eir(7, "p") };
    assert_eq!(round_trip(&node), node);
}

#[test]
fn round_trip_scan() {
    let with_predicate = IR::Scan {
        sources: ScanSources { paths: Arc::new(vec!["data.csv".to_string()]) },
        file_info: FileInfo { schema: schema_ab() },
        predicate: Some(eir(4, "p")),
        output_schema: Some(schema_ab()),
        scan_type: FileScanIR::Csv,
        unified_scan_args: UnifiedScanArgs { rechunk: true, include_file_paths: false },
    };
    assert_eq!(round_trip(&with_predicate), with_predicate);

    let without_predicate = IR::Scan {
        sources: ScanSources { paths: Arc::new(vec![]) },
        file_info: FileInfo { schema: schema_ab() },
        predicate: None,
        output_schema: None,
        scan_type: FileScanIR::Parquet,
        unified_scan_args: UnifiedScanArgs { rechunk: false, include_file_paths: true },
    };
    assert_eq!(round_trip(&without_predicate), without_predicate);
}

#[test]
fn round_trip_data_frame_scan() {
    let node = IR::DataFrameScan {
        df: Arc::new(DataFrame { schema: Schema::new(), height: 3 }),
        schema: schema_ab(),
        output_schema: Some(schema_ab()),
    };
    assert_eq!(round_trip(&node), node);
}

#[test]
fn round_trip_simple_projection() {
    let node = IR::SimpleProjection { input: Node(0), columns: schema_ab() };
    assert_eq!(round_trip(&node), node);
}

#[test]
fn round_trip_select() {
    let node = IR::Select {
        input: Node(0),
        expr: vec![eir(1, "a"), eir(2, "b")],
        schema: schema_ab(),
        options: ProjectionOptions::default(),
    };
    assert_eq!(round_trip(&node), node);
}

#[test]
fn round_trip_sort() {
    let node = IR::Sort {
        input: Node(5),
        by_column: vec![eir(1, "a")],
        slice: Some((0, 10)),
        sort_options: SortMultipleOptions {
            descending: vec![true],
            nulls_last: vec![false],
            multithreaded: true,
            maintain_order: false,
            limit: None,
        },
    };
    assert_eq!(round_trip(&node), node);
}

#[test]
fn round_trip_cache() {
    let node = IR::Cache { input: Node(2), id: 42, cache_hits: 3 };
    assert_eq!(round_trip(&node), node);
}

#[test]
fn round_trip_group_by() {
    let node = IR::GroupBy {
        input: Node(0),
        keys: vec![eir(1, "k1"), eir(2, "k2")],
        aggs: vec![eir(3, "s")],
        schema: schema_ab(),
        maintain_order: true,
        options: Arc::new(GroupbyOptions { slice: None }),
        apply: Some(9),
    };
    assert_eq!(round_trip(&node), node);
}

#[test]
fn round_trip_join() {
    let node = IR::Join {
        input_left: Node(0),
        input_right: Node(1),
        schema: schema_ab(),
        left_on: vec![eir(2, "a")],
        right_on: vec![eir(3, "b"), eir(4, "c")],
        options: Arc::new(JoinOptionsIR {
            how: JoinType::Inner,
            suffix: "_right".to_string(),
            nulls_equal: false,
        }),
    };
    assert_eq!(round_trip(&node), node);
}

#[test]
fn round_trip_hstack() {
    let node = IR::HStack {
        input: Node(0),
        exprs: vec![eir(5, "n")],
        schema: schema_ab(),
        options: ProjectionOptions::default(),
    };
    assert_eq!(round_trip(&node), node);
}

#[test]
fn round_trip_distinct() {
    let node = IR::Distinct {
        input: Node(0),
        options: DistinctOptionsIR {
            subset: Some(Arc::new(vec!["a".to_string()])),
            maintain_order: true,
            keep_strategy: UniqueKeepStrategy::First,
            slice: Some((1, 2)),
        },
    };
    assert_eq!(round_trip(&node), node);
}

#[test]
fn round_trip_map_function() {
    let node = IR::MapFunction { input: Node(1), function: FunctionIR::Opaque(11) };
    assert_eq!(round_trip(&node), node);
}

#[test]
fn round_trip_union() {
    let node = IR::Union {
        inputs: vec![Node(0), Node(1), Node(2)],
        options: UnionOptions { parallel: true, maintain_order: false, slice: None },
    };
    assert_eq!(round_trip(&node), node);
}

#[test]
fn round_trip_hconcat() {
    let node = IR::HConcat {
        inputs: vec![Node(0), Node(1)],
        schema: schema_ab(),
        options: HConcatOptions { parallel: true },
    };
    assert_eq!(round_trip(&node), node);
}

#[test]
fn round_trip_ext_context() {
    let node = IR::ExtContext {
        input: Node(7),
        contexts: vec![Node(1), Node(2)],
        schema: schema_ab(),
    };
    assert_eq!(round_trip(&node), node);
}

#[test]
fn round_trip_sink_memory_and_file() {
    let memory = IR::Sink { input: Node(0), payload: SinkTypeIR::Memory };
    assert_eq!(round_trip(&memory), memory);

    let file = IR::Sink {
        input: Node(0),
        payload: SinkTypeIR::File(Arc::new("out.parquet".to_string())),
    };
    assert_eq!(round_trip(&file), file);
}

#[test]
fn round_trip_sink_partitioned() {
    let node = IR::Sink {
        input: Node(0),
        payload: SinkTypeIR::Partition(PartitionSinkIR {
            base_path: Arc::new("out".to_string()),
            variant: PartitionVariantIR::ByKey {
                key_exprs: vec![eir(1, "k1"), eir(2, "k2")],
                include_key: true,
            },
            per_partition_sort_by: Some(vec![
                SortColumnIR { expr: eir(3, "s1"), descending: false, nulls_last: true },
                SortColumnIR { expr: eir(4, "s2"), descending: true, nulls_last: false },
            ]),
        }),
    };
    assert_eq!(round_trip(&node), node);

    let max_size = IR::Sink {
        input: Node(0),
        payload: SinkTypeIR::Partition(PartitionSinkIR {
            base_path: Arc::new("out".to_string()),
            variant: PartitionVariantIR::MaxSize(1000),
            per_partition_sort_by: None,
        }),
    };
    assert_eq!(round_trip(&max_size), max_size);
}

#[test]
fn round_trip_sink_multiple() {
    let node = IR::SinkMultiple { inputs: vec![Node(0), Node(1)] };
    assert_eq!(round_trip(&node), node);
}

#[test]
fn round_trip_merge_sorted() {
    let node = IR::MergeSorted {
        input_left: Node(0),
        input_right: Node(1),
        key: "ts".to_string(),
    };
    assert_eq!(round_trip(&node), node);
}

#[test]
fn group_by_extraction_order_is_keys_then_aggs() {
    let node = IR::GroupBy {
        input: Node(0),
        keys: vec![eir(1, "k")],
        aggs: vec![eir(2, "x"), eir(3, "y")],
        schema: schema_ab(),
        maintain_order: false,
        options: Arc::new(GroupbyOptions { slice: None }),
        apply: None,
    };
    let exprs = node.get_exprs();
    assert_eq!(exprs, vec![eir(1, "k"), eir(2, "x"), eir(3, "y")]);
}

#[test]
fn join_extraction_order_is_left_then_right() {
    let node = IR::Join {
        input_left: Node(0),
        input_right: Node(1),
        schema: schema_ab(),
        left_on: vec![eir(2, "l")],
        right_on: vec![eir(3, "r")],
        options: Arc::new(JoinOptionsIR {
            how: JoinType::Left,
            suffix: "_r".to_string(),
            nulls_equal: true,
        }),
    };
    assert_eq!(node.get_exprs(), vec![eir(2, "l"), eir(3, "r")]);
    assert_eq!(node.get_inputs(), vec![Node(0), Node(1)]);
}

#[test]
fn sink_extraction_order_is_keys_then_sort_exprs() {
    let node = IR::Sink {
        input: Node(0),
        payload: SinkTypeIR::Partition(PartitionSinkIR {
            base_path: Arc::new("out".to_string()),
            variant: PartitionVariantIR::Parted {
                key_exprs: vec![eir(1, "k")],
                include_key: false,
            },
            per_partition_sort_by: Some(vec![SortColumnIR {
                expr: eir(2, "s"),
                descending: false,
                nulls_last: false,
            }]),
        }),
    };
    assert_eq!(node.get_exprs(), vec![eir(1, "k"), eir(2, "s")]);
}

#[test]
fn ext_context_inputs_are_contexts_then_input() {
    let node = IR::ExtContext {
        input: Node(9),
        contexts: vec![Node(1), Node(2)],
        schema: schema_ab(),
    };
    assert_eq!(node.get_inputs(), vec![Node(1), Node(2), Node(9)]);
    assert_eq!(node.get_inputs_vec(), vec![Node(1), Node(2), Node(9)]);
}

#[test]
fn reconstruction_takes_fresh_expressions() {
    let node = IR::GroupBy {
        input: Node(0),
        keys: vec![eir(1, "k")],
        aggs: vec![eir(2, "x")],
        schema: schema_ab(),
        maintain_order: false,
        options: Arc::new(GroupbyOptions { slice: Some((0, 5)) }),
        apply: None,
    };
    let rebuilt = node.with_exprs_and_input(
        vec![eir(10, "k2"), eir(11, "x2")],
        vec![Node(20)],
    );
    match rebuilt {
        IR::GroupBy { input, keys, aggs, options, .. } => {
            assert_eq!(input, Node(20));
            assert_eq!(keys, vec![eir(10, "k2")]);
            assert_eq!(aggs, vec![eir(11, "x2")]);
            assert_eq!(options.slice, Some((0, 5)));
        }
        other => panic!("expected a group-by node, got {:?}", other),
    }
}

#[test]
fn copy_exprs_appends_to_existing_container() {
    let filter = IR::Filter { input: Node(0), predicate: eir(5, "p") };
    let mut container = vec![eir(9, "existing")];
    filter.copy_exprs(&mut container);
    assert_eq!(container, vec![eir(9, "existing"), eir(5, "p")]);

    let mut inputs = vec![Node(42)];
    filter.copy_inputs(&mut inputs);
    assert_eq!(inputs, vec![Node(42), Node(0)]);
}
