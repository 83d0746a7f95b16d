//! Behavioural tests of the lowering pass: naming rules, deferred
//! literal materialization, validation failures, and the end-to-end
//! shape of the lowered arena.

use polars_plan::aexpr::{AExpr, ExprIR, IRFunctionExpr, IRStructFunction};
use polars_plan::arena::Arena;
use polars_plan::dtypes::{DataType, Schema};
use polars_plan::error::{ErrorKind, IrError};
use polars_plan::expr::{
    AggExpr, DynLiteralValue, EvalVariant, Expr, LiteralValue, NameTransform, Operator,
};
use polars_plan::expr::{DtypeUdf, OpaqueUdf, WindowMapping, WindowType};
use polars_plan::lower::{
    to_expr_ir, to_expr_ir_materialized_lit, to_expr_irs, to_expr_ir_with_context,
    ExprToIRContext,
};
use polars_plan::options::FunctionOptions;

fn col(name: &str) -> Expr {
    Expr::Column(name.to_string())
}

fn lit_dyn(v: i64) -> Expr {
    Expr::Literal(LiteralValue::Dyn(DynLiteralValue::Int(v)))
}

fn int_schema() -> Schema {
    Schema::new()
        .with_field("a".to_string(), DataType::Int64)
        .with_field("b".to_string(), DataType::Int64)
}

fn expect_name(ir: &ExprIR) -> &str {
    ir.output_name().expect("lowering always sets an explicit alias").as_str()
}

#[test]
fn binary_takes_left_name() {
    let mut arena: Arena<AExpr> = Arena::new();
    let schema = int_schema();
    let e = Expr::BinaryExpr {
        left: Box::new(col("a")),
        op: Operator::Plus,
        right: Box::new(col("b")),
    };
    let ir = to_expr_ir(e, &mut arena, &schema).unwrap();
    assert_eq!(expect_name(&ir), "a");
}

#[test]
fn ternary_takes_truthy_name() {
    let mut arena: Arena<AExpr> = Arena::new();
    let schema = int_schema();
    let e = Expr::Ternary {
        predicate: Box::new(Expr::Literal(LiteralValue::Boolean(true))),
        truthy: Box::new(col("t")),
        falsy: Box::new(col("f")),
    };
    let ir = to_expr_ir(e, &mut arena, &schema).unwrap();
    assert_eq!(expect_name(&ir), "t");
}

#[test]
fn alias_renames_without_wrapping() {
    let schema = int_schema();

    let mut bare_arena: Arena<AExpr> = Arena::new();
    let bare = to_expr_ir(col("a"), &mut bare_arena, &schema).unwrap();

    let mut alias_arena: Arena<AExpr> = Arena::new();
    let aliased = to_expr_ir(
        Expr::Alias(Box::new(col("a")), "x".to_string()),
        &mut alias_arena,
        &schema,
    )
    .unwrap();

    assert_eq!(expect_name(&aliased), "x");
    // The alias wraps no node: both lowerings insert exactly one
    // column node and hand back the same handle.
    assert_eq!(aliased.node(), bare.node());
    assert_eq!(alias_arena.len(), 1);
    assert!(matches!(
        alias_arena.get(aliased.node()),
        AExpr::Column(c) if c == "a"
    ));
}

#[test]
fn bare_deferred_literal_stays_deferred() {
    let mut arena: Arena<AExpr> = Arena::new();
    let schema = int_schema();
    let ir = to_expr_ir(lit_dyn(5), &mut arena, &schema).unwrap();
    assert_eq!(expect_name(&ir), "literal");
    assert!(matches!(
        arena.get(ir.node()),
        AExpr::Literal(LiteralValue::Dyn(DynLiteralValue::Int(5)))
    ));
}

#[test]
fn materializing_entry_point_forces_concrete_type() {
    let mut arena: Arena<AExpr> = Arena::new();
    let schema = int_schema();
    let ir = to_expr_ir_materialized_lit(lit_dyn(5), &mut arena, &schema).unwrap();
    assert!(matches!(
        arena.get(ir.node()),
        AExpr::Literal(LiteralValue::Int32(5))
    ));

    // A value outside the 32-bit range widens.
    let mut arena2: Arena<AExpr> = Arena::new();
    let ir2 = to_expr_ir_materialized_lit(lit_dyn(1i64 << 40), &mut arena2, &schema).unwrap();
    assert!(matches!(
        arena2.get(ir2.node()),
        AExpr::Literal(LiteralValue::Int64(v)) if *v == 1i64 << 40
    ));
}

#[test]
fn alias_chains_materialize_deferred_literals() {
    // A deferred literal under one or more aliases still materializes
    // when the position forces it.
    let schema = int_schema();
    let mut arena: Arena<AExpr> = Arena::new();
    let once = Expr::Alias(Box::new(lit_dyn(5)), "x".to_string());
    let ir = to_expr_ir_materialized_lit(once, &mut arena, &schema).unwrap();
    assert_eq!(expect_name(&ir), "x");
    assert!(matches!(
        arena.get(ir.node()),
        AExpr::Literal(LiteralValue::Int32(5))
    ));

    let mut arena2: Arena<AExpr> = Arena::new();
    let twice = Expr::Alias(
        Box::new(Expr::Alias(Box::new(lit_dyn(6)), "inner".to_string())),
        "outer".to_string(),
    );
    let ir2 = to_expr_ir_materialized_lit(twice, &mut arena2, &schema).unwrap();
    assert_eq!(expect_name(&ir2), "outer");
    assert!(matches!(
        arena2.get(ir2.node()),
        AExpr::Literal(LiteralValue::Int32(6))
    ));
}

#[test]
fn aggregate_input_materializes_deferred_literal() {
    let mut arena: Arena<AExpr> = Arena::new();
    let schema = int_schema();
    let e = Expr::Agg(AggExpr::Sum(Box::new(lit_dyn(5))));
    let ir = to_expr_ir(e, &mut arena, &schema).unwrap();
    let node = arena.get(ir.node());
    let input = match node {
        AExpr::Agg(polars_plan::aexpr::IRAggExpr::Sum(input)) => *input,
        other => panic!("expected a sum node, got {:?}", other),
    };
    assert!(matches!(
        arena.get(input),
        AExpr::Literal(LiteralValue::Int32(5))
    ));
}

#[test]
fn materialize_is_idempotent() {
    let deferred = LiteralValue::Dyn(DynLiteralValue::Int(7));
    let once = deferred.materialize();
    let twice = once.clone().materialize();
    assert_eq!(once, twice);
    assert_eq!(once, LiteralValue::Int32(7));
}

fn list_schema() -> Schema {
    Schema::new().with_field("xs".to_string(), DataType::List(Box::new(DataType::Int64)))
}

#[test]
fn list_eval_rejects_named_column() {
    let mut arena: Arena<AExpr> = Arena::new();
    let schema = list_schema();
    let e = Expr::Eval {
        expr: Box::new(col("xs")),
        evaluation: Box::new(col("y")),
        variant: EvalVariant::List,
    };
    let err = to_expr_ir(e, &mut arena, &schema).unwrap_err();
    assert!(matches!(&err, IrError::NamedColumnInListEval(name) if name == "y"));
    assert_eq!(err.kind(), ErrorKind::InvalidOperation);
}

#[test]
fn list_eval_accepts_placeholder_column() {
    let mut arena: Arena<AExpr> = Arena::new();
    let schema = list_schema();
    let e = Expr::Eval {
        expr: Box::new(col("xs")),
        evaluation: Box::new(col("")),
        variant: EvalVariant::List,
    };
    let ir = to_expr_ir(e, &mut arena, &schema).unwrap();
    assert_eq!(expect_name(&ir), "xs");
}

#[test]
fn list_eval_rejects_non_list_input() {
    let mut arena: Arena<AExpr> = Arena::new();
    let schema = int_schema();
    let e = Expr::Eval {
        expr: Box::new(col("a")),
        evaluation: Box::new(col("")),
        variant: EvalVariant::List,
    };
    let err = to_expr_ir(e, &mut arena, &schema).unwrap_err();
    assert!(matches!(err, IrError::EvalNotAList(DataType::Int64)));
}

#[test]
fn cumulative_eval_requires_scalar_evaluation() {
    let mut arena: Arena<AExpr> = Arena::new();
    let schema = int_schema();
    let e = Expr::Eval {
        expr: Box::new(col("a")),
        evaluation: Box::new(col("")),
        variant: EvalVariant::Cumulative { min_samples: 1 },
    };
    let err = to_expr_ir(e, &mut arena, &schema).unwrap_err();
    assert!(matches!(err, IrError::NonScalarCumulativeEval));
    assert_eq!(err.kind(), ErrorKind::InvalidOperation);

    // A scalar-producing evaluation is accepted.
    let mut arena2: Arena<AExpr> = Arena::new();
    let ok = Expr::Eval {
        expr: Box::new(col("a")),
        evaluation: Box::new(Expr::Agg(AggExpr::Sum(Box::new(col(""))))),
        variant: EvalVariant::Cumulative { min_samples: 1 },
    };
    let ir = to_expr_ir(ok, &mut arena2, &schema).unwrap();
    assert_eq!(expect_name(&ir), "a");
}

#[test]
fn keep_name_takes_first_column_of_lowered_subtree() {
    let mut arena: Arena<AExpr> = Arena::new();
    let schema = int_schema();
    let transformed = Expr::Sort {
        expr: Box::new(Expr::Alias(Box::new(col("a")), "renamed".to_string())),
        options: Default::default(),
    };
    let e = Expr::KeepName(Box::new(transformed));
    let ir = to_expr_ir(e, &mut arena, &schema).unwrap();
    assert_eq!(expect_name(&ir), "a");
}

#[test]
fn keep_name_without_column_fails() {
    let mut arena: Arena<AExpr> = Arena::new();
    let schema = int_schema();
    let e = Expr::KeepName(Box::new(lit_dyn(5)));
    let err = to_expr_ir(e, &mut arena, &schema).unwrap_err();
    assert!(matches!(err, IrError::KeepNameWithoutColumn));
    assert_eq!(err.kind(), ErrorKind::InvalidOperation);
}

#[test]
fn rename_alias_applies_transform() {
    let mut arena: Arena<AExpr> = Arena::new();
    let schema = int_schema();
    let e = Expr::RenameAlias {
        expr: Box::new(col("a")),
        function: NameTransform::Prefix("p_".to_string()),
    };
    let ir = to_expr_ir(e, &mut arena, &schema).unwrap();
    assert_eq!(expect_name(&ir), "p_a");

    let mut arena2: Arena<AExpr> = Arena::new();
    let e2 = Expr::RenameAlias {
        expr: Box::new(col("a")),
        function: NameTransform::Suffix("_s".to_string()),
    };
    let ir2 = to_expr_ir(e2, &mut arena2, &schema).unwrap();
    assert_eq!(expect_name(&ir2), "a_s");
}

#[test]
fn field_outside_struct_context_fails() {
    let mut arena: Arena<AExpr> = Arena::new();
    let schema = int_schema();
    let err = to_expr_ir(Expr::Field("x".to_string()), &mut arena, &schema).unwrap_err();
    assert!(matches!(err, IrError::FieldOutsideStructContext));
    assert_eq!(err.kind(), ErrorKind::InvalidOperation);
}

#[test]
fn field_resolution_inside_struct_context() {
    let mut arena: Arena<AExpr> = Arena::new();
    let schema = int_schema();
    // A node standing for the enclosing struct expression.
    let base = to_expr_ir(col("a"), &mut arena, &schema).unwrap();
    let fields = Schema::new()
        .with_field("x".to_string(), DataType::Int64)
        .with_field("y".to_string(), DataType::Boolean);

    let ctx = ExprToIRContext { with_fields: Some((base.node(), &fields)), schema: &schema };
    let err =
        to_expr_ir_with_context(Expr::Field("z".to_string()), &ctx, &mut arena).unwrap_err();
    assert!(matches!(&err, IrError::FieldDoesNotExist(name) if name == "z"));
    assert_eq!(err.kind(), ErrorKind::InvalidOperation);

    let ctx2 = ExprToIRContext { with_fields: Some((base.node(), &fields)), schema: &schema };
    let ir = to_expr_ir_with_context(Expr::Field("x".to_string()), &ctx2, &mut arena).unwrap();
    assert_eq!(expect_name(&ir), "x");
    match arena.get(ir.node()) {
        AExpr::Function { input, function, .. } => {
            assert_eq!(input.len(), 1);
            assert_eq!(input[0].node(), base.node());
            assert!(matches!(
                function,
                IRFunctionExpr::StructExpr(IRStructFunction::FieldByName(f)) if f == "x"
            ));
        }
        other => panic!("expected a field-by-name function node, got {:?}", other),
    }
}

#[test]
fn subplan_and_selector_are_rejected() {
    let schema = int_schema();
    let mut arena: Arena<AExpr> = Arena::new();
    let err = to_expr_ir(Expr::SubPlan, &mut arena, &schema).unwrap_err();
    assert!(matches!(err, IrError::ExprKindNotAllowed));
    let err2 = to_expr_ir(Expr::Selector, &mut arena, &schema).unwrap_err();
    assert!(matches!(err2, IrError::ExprKindNotAllowed));
    assert_eq!(err2.kind(), ErrorKind::InvalidOperation);
}

#[test]
fn len_has_reserved_name() {
    let mut arena: Arena<AExpr> = Arena::new();
    let schema = int_schema();
    let ir = to_expr_ir(Expr::Len, &mut arena, &schema).unwrap();
    assert_eq!(expect_name(&ir), "len");
    assert!(matches!(arena.get(ir.node()), AExpr::Len));
}

#[test]
fn anonymous_function_requires_resolvable_columns() {
    let schema = int_schema();
    let mut arena: Arena<AExpr> = Arena::new();
    let e = Expr::AnonymousFunction {
        input: vec![col("a")],
        function: OpaqueUdf { id: 1, required_column: Some("missing".to_string()) },
        output_type: DtypeUdf { required_column: None, dtype: DataType::Int64 },
        options: FunctionOptions::elementwise(),
        fmt_str: "my_udf".to_string(),
    };
    let err = to_expr_ir(e, &mut arena, &schema).unwrap_err();
    assert!(matches!(&err, IrError::UdfColumnNotFound(c) if c == "missing"));
    assert_eq!(err.kind(), ErrorKind::ComputeError);

    // With no inputs the display string becomes the output name.
    let mut arena2: Arena<AExpr> = Arena::new();
    let e2 = Expr::AnonymousFunction {
        input: vec![],
        function: OpaqueUdf { id: 1, required_column: None },
        output_type: DtypeUdf { required_column: None, dtype: DataType::Int64 },
        options: FunctionOptions::elementwise(),
        fmt_str: "my_udf".to_string(),
    };
    let ir = to_expr_ir(e2, &mut arena2, &schema).unwrap();
    assert_eq!(expect_name(&ir), "my_udf");
}

#[test]
fn window_takes_function_name() {
    let mut arena: Arena<AExpr> = Arena::new();
    let schema = int_schema();
    let e = Expr::Window {
        function: Box::new(col("a")),
        partition_by: vec![col("b")],
        order_by: None,
        options: WindowType::Over(WindowMapping::GroupsToRows),
    };
    let ir = to_expr_ir(e, &mut arena, &schema).unwrap();
    assert_eq!(expect_name(&ir), "a");
}

#[test]
fn wrapper_constructs_keep_primary_input_name() {
    let schema = int_schema();

    let mut arena: Arena<AExpr> = Arena::new();
    let cast = Expr::Cast {
        expr: Box::new(col("a")),
        dtype: DataType::Float64,
        options: polars_plan::expr::CastOptions::Strict,
    };
    assert_eq!(expect_name(&to_expr_ir(cast, &mut arena, &schema).unwrap()), "a");

    let filter = Expr::Filter { input: Box::new(col("a")), by: Box::new(col("b")) };
    assert_eq!(expect_name(&to_expr_ir(filter, &mut arena, &schema).unwrap()), "a");

    let explode = Expr::Explode { input: Box::new(col("a")), skip_empty: false };
    assert_eq!(expect_name(&to_expr_ir(explode, &mut arena, &schema).unwrap()), "a");

    let sort_by = Expr::SortBy {
        expr: Box::new(col("a")),
        by: vec![col("b")],
        sort_options: Default::default(),
    };
    assert_eq!(expect_name(&to_expr_ir(sort_by, &mut arena, &schema).unwrap()), "a");
}

#[test]
fn secondary_operands_materialize_deferred_literals() {
    let schema = int_schema();

    let mut arena: Arena<AExpr> = Arena::new();
    let slice = Expr::Slice {
        input: Box::new(col("a")),
        offset: Box::new(lit_dyn(1)),
        length: Box::new(lit_dyn(2)),
    };
    let ir = to_expr_ir(slice, &mut arena, &schema).unwrap();
    assert_eq!(expect_name(&ir), "a");
    match arena.get(ir.node()) {
        AExpr::Slice { offset, length, .. } => {
            assert!(matches!(
                arena.get(*offset),
                AExpr::Literal(LiteralValue::Int32(1))
            ));
            assert!(matches!(
                arena.get(*length),
                AExpr::Literal(LiteralValue::Int32(2))
            ));
        }
        other => panic!("expected a slice node, got {:?}", other),
    }

    let mut arena2: Arena<AExpr> = Arena::new();
    let gather = Expr::Gather {
        expr: Box::new(col("a")),
        idx: Box::new(lit_dyn(0)),
        returns_scalar: true,
    };
    let ir2 = to_expr_ir(gather, &mut arena2, &schema).unwrap();
    match arena2.get(ir2.node()) {
        AExpr::Gather { idx, returns_scalar, .. } => {
            assert!(*returns_scalar);
            assert!(matches!(
                arena2.get(*idx),
                AExpr::Literal(LiteralValue::Int32(0))
            ));
        }
        other => panic!("expected a gather node, got {:?}", other),
    }
}

#[test]
fn end_to_end_lowering_of_expression_list() {
    let mut arena: Arena<AExpr> = Arena::new();
    let schema = int_schema();
    let exprs = vec![
        Expr::BinaryExpr {
            left: Box::new(col("a")),
            op: Operator::Plus,
            right: Box::new(col("b")),
        },
        Expr::Alias(Box::new(lit_dyn(1)), "one".to_string()),
    ];
    let irs = to_expr_irs(exprs, &mut arena, &schema).unwrap();
    assert_eq!(irs.len(), 2);
    assert_eq!(expect_name(&irs[0]), "a");
    assert_eq!(expect_name(&irs[1]), "one");

    match arena.get(irs[0].node()) {
        AExpr::BinaryExpr { left, op: Operator::Plus, right } => {
            assert!(matches!(arena.get(*left), AExpr::Column(c) if c == "a"));
            assert!(matches!(arena.get(*right), AExpr::Column(c) if c == "b"));
        }
        other => panic!("expected a binary node, got {:?}", other),
    }
}
