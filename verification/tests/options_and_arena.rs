//! Tests of the option/flag types, the arena, the schema, and type
//! inference helpers.

use polars_plan::aexpr::{dtype_of, first_col_name, is_scalar_ae, AExpr, IRAggExpr};
use polars_plan::arena::{Arena, Node};
use polars_plan::dtypes::{get_supertype, DataType, Schema, UnknownKind};
use polars_plan::expr::{DynLiteralValue, LiteralValue};
use polars_plan::ir::{IRPlan, IR};
use polars_plan::options::{
    CastingRules, FunctionFlags, FunctionOptions, ProjectionOptions, SortOptions,
    SuperTypeOptions, UnsafeBool, LENGTH_PRESERVING, PASS_NAME_TO_APPLY, RETURNS_SCALAR,
    ROW_SEPARABLE,
};

#[test]
fn arena_is_append_only() {
    let mut arena: Arena<u64> = Arena::new();
    assert_eq!(arena.len(), 0);
    let first = arena.add(10);
    let second = arena.add(20);
    assert_eq!(arena.len(), 2);
    assert_eq!(*arena.get(first), 10);
    assert_eq!(*arena.get(second), 20);
    // Adding more never renumbers existing handles.
    let third = arena.add(30);
    assert_eq!(*arena.get(first), 10);
    assert_eq!(*arena.get(third), 30);
    // In-place mutation through a handle.
    *arena.get_mut(second) = 21;
    assert_eq!(*arena.get(second), 21);
    assert_eq!(first, Node(0));
    assert_eq!(third, Node(2));
}

#[test]
fn schema_lookup_and_order() {
    let schema = Schema::new()
        .with_field("a".to_string(), DataType::Int64)
        .with_field("b".to_string(), DataType::Boolean);
    assert_eq!(schema.len(), 2);
    assert!(schema.contains(&"a".to_string()));
    assert!(!schema.contains(&"c".to_string()));
    assert_eq!(schema.get(&"b".to_string()), Some(&DataType::Boolean));
    assert_eq!(schema.get(&"c".to_string()), None);
    let (name, dtype) = schema.field_at(0);
    assert_eq!(name, "a");
    assert_eq!(dtype, &DataType::Int64);
    let copy = schema.deep_clone();
    assert_eq!(copy, schema);
}

#[test]
fn supertype_rules() {
    assert_eq!(
        get_supertype(&DataType::Int32, &DataType::Int64),
        Some(DataType::Int64)
    );
    assert_eq!(
        get_supertype(&DataType::Unknown(UnknownKind::Int), &DataType::Int32),
        Some(DataType::Int32)
    );
    assert_eq!(
        get_supertype(&DataType::Float64, &DataType::Int64),
        Some(DataType::Float64)
    );
    assert_eq!(
        get_supertype(&DataType::Boolean, &DataType::Int32),
        Some(DataType::Int32)
    );
    assert_eq!(get_supertype(&DataType::Utf8, &DataType::Int32), None);
    assert_eq!(
        get_supertype(&DataType::Utf8, &DataType::Utf8),
        Some(DataType::Utf8)
    );
}

#[test]
fn dtype_inference_over_arena() {
    let schema = Schema::new().with_field("a".to_string(), DataType::Int32);
    let mut arena: Arena<AExpr> = Arena::new();
    let col = arena.add(AExpr::Column("a".to_string()));
    assert_eq!(dtype_of(col, &arena, &schema), Ok(DataType::Int32));

    let other = arena.add(AExpr::Column("a".to_string()));
    let sum = arena.add(AExpr::BinaryExpr {
        left: col,
        op: polars_plan::expr::Operator::Plus,
        right: other,
    });
    assert_eq!(dtype_of(sum, &arena, &schema), Ok(DataType::Int32));

    let cmp = arena.add(AExpr::BinaryExpr {
        left: col,
        op: polars_plan::expr::Operator::Lt,
        right: other,
    });
    assert_eq!(dtype_of(cmp, &arena, &schema), Ok(DataType::Boolean));

    let missing = arena.add(AExpr::Column("zzz".to_string()));
    assert!(matches!(
        dtype_of(missing, &arena, &schema),
        Err(polars_plan::error::IrError::ColumnNotFound(c)) if c == "zzz"
    ));
}

#[test]
fn function_flags_bit_operations() {
    let mut flags = FunctionFlags::empty();
    assert!(!flags.is_elementwise());
    flags.set_elementwise();
    assert!(flags.is_elementwise());
    assert!(flags.is_row_separable());
    assert!(flags.is_length_preserving());
    assert!(!flags.returns_scalar());
    assert_eq!(flags.bits, ROW_SEPARABLE | LENGTH_PRESERVING);

    let with_scalar = flags.with(RETURNS_SCALAR);
    assert!(with_scalar.returns_scalar());
    assert!(with_scalar.contains(ROW_SEPARABLE));
    assert!(!with_scalar.contains(PASS_NAME_TO_APPLY));
}

#[test]
fn function_options_builders() {
    let elementwise = FunctionOptions::elementwise();
    assert!(elementwise.is_elementwise());
    assert!(elementwise.check_lengths());
    assert!(elementwise.cast_options.is_none());

    let with_infer = FunctionOptions::elementwise_with_infer();
    assert!(with_infer.is_length_preserving());
    assert!(!with_infer.is_row_separable());
    assert_eq!(with_infer, FunctionOptions::length_preserving());

    let row_separable = FunctionOptions::row_separable();
    assert!(row_separable.is_row_separable());
    assert!(!row_separable.is_length_preserving());

    let groupwise = FunctionOptions::groupwise();
    assert_eq!(groupwise.flags.bits, 0);

    let aggregation = FunctionOptions::aggregation();
    assert!(aggregation.returns_scalar());
    assert!(!aggregation.is_elementwise());
}

#[test]
fn function_options_mutators() {
    let mut options = FunctionOptions::groupwise();
    options.set_elementwise();
    assert!(options.is_elementwise());

    let with_cast = FunctionOptions::elementwise()
        .with_casting_rules(CastingRules::FirstArgLossless);
    assert_eq!(with_cast.cast_options, Some(CastingRules::FirstArgLossless));

    let with_supertype =
        FunctionOptions::elementwise().with_supertyping(SuperTypeOptions::default());
    assert_eq!(
        with_supertype.cast_options,
        Some(CastingRules::cast_to_supertypes())
    );

    let via_closure = FunctionOptions::groupwise().with_flags(|f| f.with(ROW_SEPARABLE));
    assert!(via_closure.is_row_separable());
}

#[test]
fn defaults_match_documented_values() {
    assert_eq!(UnsafeBool::default(), UnsafeBool(true));
    assert_eq!(FunctionFlags::default().bits, 0);
    let fo = FunctionOptions::default();
    assert!(fo.check_lengths());
    assert_eq!(fo.flags.bits, 0);
    assert!(fo.cast_options.is_none());
    let po = ProjectionOptions::default();
    assert!(po.run_parallel && po.duplicate_check && po.should_broadcast);
    let so = SortOptions::default();
    assert!(!so.descending && !so.nulls_last && so.multithreaded && !so.maintain_order);
    assert_eq!(so.limit, None);
}

#[test]
fn merge_options_is_conservative() {
    let all = ProjectionOptions::default();
    let none = ProjectionOptions {
        run_parallel: false,
        duplicate_check: false,
        should_broadcast: false,
    };
    let merged = all.merge_options(&none);
    assert!(!merged.run_parallel);
    assert!(!merged.duplicate_check);
    // Broadcasting is kept when either side asks for it.
    assert!(merged.should_broadcast);
    let both_none = none.merge_options(&none);
    assert!(!both_none.should_broadcast);
}

#[test]
fn scalar_and_scan_helpers() {
    let mut arena: Arena<AExpr> = Arena::new();
    let lit = arena.add(AExpr::Literal(LiteralValue::Dyn(DynLiteralValue::Int(1))));
    assert!(is_scalar_ae(lit, &arena));

    let col = arena.add(AExpr::Column("a".to_string()));
    assert!(!is_scalar_ae(col, &arena));

    let agg = arena.add(AExpr::Agg(IRAggExpr::Sum(col)));
    assert!(is_scalar_ae(agg, &arena));

    // The keep-name scan finds the first column in a pre-order walk.
    assert_eq!(first_col_name(agg, &arena), Some("a".to_string()));
    assert_eq!(first_col_name(lit, &arena), None);
}

#[test]
fn plan_bundle_accessors() {
    let mut lp_arena: Arena<IR> = Arena::new();
    let mut expr_arena: Arena<AExpr> = Arena::new();
    let leaf = lp_arena.add(IR::Invalid);
    let top = lp_arena.add(IR::Slice { input: leaf, offset: 0, len: 1 });
    expr_arena.add(AExpr::Len);
    let plan = IRPlan::new(top, lp_arena, expr_arena);
    assert!(matches!(plan.root(), IR::Slice { .. }));
    let as_ref = plan.as_ref();
    assert!(matches!(as_ref.root(), IR::Slice { .. }));
    let rerooted = as_ref.with_root(leaf);
    assert!(matches!(rerooted.root(), IR::Invalid));
    assert_eq!(IR::default(), IR::Invalid);
}
