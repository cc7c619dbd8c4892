use rpsql_planner::conf_writer::plan_to_json;
use rpsql_planner::error::PlanError;
use rpsql_planner::metadata::{MetaType, Metadata};
use rpsql_planner::ops::{
    AggFunc, ColRef, Op, OpAggGroup, OpProjection, OpScan, OpSortLimit, OpSubqueryProj, Order,
};
use rpsql_planner::optimizer::local_project;
use rpsql_planner::planner::{LocalSchema, VirtualSchema};

fn col(table: &str, column: &str) -> ColRef {
    ColRef::TableRef { table: table.to_string(), column: column.to_string() }
}

fn count(of: ColRef) -> ColRef {
    ColRef::AggregateRef { func: AggFunc::Count, source: Box::new(of) }
}

fn scan(alias: &str, columns: &[&str]) -> Op {
    Op::ScanOp(Box::new(OpScan {
        file: format!("{}.tbl", alias),
        filetype: "text".to_string(),
        tab_name: alias.to_string(),
        schema: columns.iter().map(|_| MetaType::DEC).collect(),
        ls: None,
        vs: VirtualSchema { columns: columns.iter().map(|c| col(alias, c)).collect() },
        cfg_name: None,
    }))
}

fn counted_and_sorted() -> Op {
    let grouped = Op::AggGroupOp(Box::new(OpAggGroup {
        input: scan("T", &["v", "g", "h"]),
        grouping: vec![col("T", "g"), col("T", "h")],
        agg_field: count(col("T", "v")),
        ls: None,
        vs: VirtualSchema {
            columns: vec![col("T", "g"), col("T", "h"), count(col("T", "v"))],
        },
        cfg_name: None,
    }));
    let vs = grouped.virtual_schema();
    Op::SortLimitOp(Box::new(OpSortLimit {
        input: grouped,
        order_columns: vec![col("T", "h")],
        order: Some(Order::DESC),
        limit: 5,
        ls: None,
        vs,
        cfg_name: None,
    }))
}

fn meta() -> Metadata {
    Metadata { path: "d".to_string(), buffsize: 2, tables: vec![] }
}

#[test]
fn a_copy_of_a_plan_equals_the_plan() {
    let plan = counted_and_sorted();
    assert_eq!(plan.clone(), plan);
    let resolved = local_project(plan, &[col("T", "h")], true).unwrap();
    assert_eq!(resolved.clone(), resolved);
}

#[test]
fn every_kind_of_operator_reads_as_text() {
    let plan = counted_and_sorted();
    let vs = plan.virtual_schema();
    let plan = Op::SubqueryProjOp(Box::new(OpSubqueryProj { input: plan, ls: None, vs }));
    let vs = plan.virtual_schema();
    let plan = Op::ProjectionOp(Box::new(OpProjection {
        input: plan,
        projection: vec![],
        ls: None,
        vs,
        cfg_name: None,
    }));
    assert_eq!(
        plan.to_string(),
        [
            "Projection ([])\n",
            "SortLimit (order_by=[T.h], limit=5)\n",
            "AggGroup (grouping=[T.g, T.h], agg_field=Count(T.v))\n",
            "Scan (table=T, file=T.tbl)"
        ]
        .concat()
    );
}

#[test]
fn an_aggregation_and_a_sort_are_written_with_their_positions() {
    let target = [count(col("T", "v")), col("T", "h"), col("T", "g")];
    let plan = local_project(counted_and_sorted(), &target, false).unwrap();
    let text = plan_to_json(plan, &meta()).unwrap();
    let expected = [
        "{\"path\":\"d\",\"buffsize\":2,",
        "\"treeroot\":{\"name\":\"sortlimit\",\"input\":{\"name\":\"agg\",",
        "\"input\":{\"name\":\"project\",\"input\":{\"name\":\"scanT\"}}}},",
        "\"scanT\":{\"type\":\"scan\",\"filetype\":\"text\",\"file\":\"T.tbl\",",
        "\"schema\":[\"dec\",\"dec\",\"dec\"]},",
        "\"project\":{\"type\":\"projection\",\"projection\":[\"$1\",\"$2\",\"$0\"]},",
        "\"agg\":{\"type\":\"aggregate_count\",\"fields_tuple\":[0,1],\"sumfield\":2,",
        "\"hash\":{\"fn\":\"modulo\",\"buckets\":10000,\"field\":0}},",
        "\"sortlimit\":{\"type\":\"sortlimit\",\"fields_tuple\":[1],\"order\":\"desc\",",
        "\"limit\":5}}",
    ]
    .concat();
    assert_eq!(text, expected);
}

#[test]
fn a_pass_through_is_written_as_its_input() {
    let input = scan("T", &["v"]);
    let vs = input.virtual_schema();
    let plan = Op::SubqueryProjOp(Box::new(OpSubqueryProj { input, ls: None, vs }));
    let plan = local_project(plan, &[col("T", "v")], true).unwrap();
    assert_eq!(
        plan_to_json(plan, &meta()),
        Ok([
            "{\"path\":\"d\",\"buffsize\":2,\"treeroot\":{\"name\":\"scanT\"},",
            "\"scanT\":{\"type\":\"scan\",\"filetype\":\"text\",\"file\":\"T.tbl\",",
            "\"schema\":[\"dec\"]}}"
        ]
        .concat())
    );
}

#[test]
fn a_projection_of_a_column_that_its_input_lacks_cannot_be_written() {
    let mut input = scan("T", &["v"]);
    if let Op::ScanOp(s) = &mut input {
        s.ls = Some(LocalSchema { columns: vec![col("T", "v")] });
    }
    let vs = input.virtual_schema();
    let plan = Op::ProjectionOp(Box::new(OpProjection {
        input,
        projection: vec![col("T", "w")],
        ls: Some(LocalSchema { columns: vec![col("T", "w")] }),
        vs,
        cfg_name: None,
    }));
    assert_eq!(plan_to_json(plan, &meta()), Err(PlanError::ColumnNotFound));
}

#[test]
fn an_aggregation_without_grouping_columns_cannot_be_written() {
    let agg = count(col("T", "v"));
    let plan = Op::AggGroupOp(Box::new(OpAggGroup {
        input: scan("T", &["v"]),
        grouping: vec![],
        agg_field: agg.clone(),
        ls: Some(LocalSchema { columns: vec![agg.clone()] }),
        vs: VirtualSchema { columns: vec![agg] },
        cfg_name: None,
    }));
    assert_eq!(plan_to_json(plan, &meta()), Err(PlanError::MissingOrExtraAggregate));
}
