use rpsql_planner::error::PlanError;
use rpsql_planner::metadata::MetaType;
use rpsql_planner::ops::{
    AggFunc, ColRef, Op, OpAggGroup, OpFilter, OpJoin, OpProjection, OpScan, OpSortLimit,
    OpSubqueryProj, Order,
};
use rpsql_planner::optimizer::{coerce_projection, local_project, pushdown_filters};
use rpsql_planner::planner::{LocalSchema, VirtualSchema};

fn col(table: &str, column: &str) -> ColRef {
    ColRef::TableRef { table: table.to_string(), column: column.to_string() }
}

fn sum(of: ColRef) -> ColRef {
    ColRef::AggregateRef { func: AggFunc::Sum, source: Box::new(of) }
}

fn vs(columns: &[ColRef]) -> VirtualSchema {
    VirtualSchema { columns: columns.to_vec() }
}

fn ls(columns: &[ColRef]) -> Option<LocalSchema> {
    Some(LocalSchema { columns: columns.to_vec() })
}

fn scan(alias: &str, columns: &[&str]) -> Op {
    Op::ScanOp(Box::new(OpScan {
        file: format!("{}.tbl", alias),
        filetype: "text".to_string(),
        tab_name: alias.to_string(),
        schema: columns.iter().map(|_| MetaType::LONG).collect(),
        ls: None,
        vs: VirtualSchema { columns: columns.iter().map(|c| col(alias, c)).collect() },
        cfg_name: None,
    }))
}

fn with_ls(op: Op, columns: &[ColRef]) -> Op {
    match op {
        Op::ScanOp(mut o) => {
            o.ls = ls(columns);
            Op::ScanOp(o)
        }
        Op::JoinOp(mut o) => {
            o.ls = ls(columns);
            Op::JoinOp(o)
        }
        Op::FilterOp(mut o) => {
            o.ls = ls(columns);
            Op::FilterOp(o)
        }
        Op::ProjectionOp(mut o) => {
            o.ls = ls(columns);
            Op::ProjectionOp(o)
        }
        Op::AggGroupOp(mut o) => {
            o.ls = ls(columns);
            Op::AggGroupOp(o)
        }
        Op::SortLimitOp(mut o) => {
            o.ls = ls(columns);
            Op::SortLimitOp(o)
        }
        Op::SubqueryProjOp(mut o) => {
            o.ls = ls(columns);
            Op::SubqueryProjOp(o)
        }
    }
}

fn resolved_scan(alias: &str, columns: &[&str]) -> Op {
    let cols: Vec<ColRef> = columns.iter().map(|c| col(alias, c)).collect();
    with_ls(scan(alias, columns), &cols)
}

fn filter(input: Op, field: ColRef) -> Op {
    let v = input.virtual_schema();
    Op::FilterOp(Box::new(OpFilter {
        input,
        op: "==".to_string(),
        field,
        value: "5".to_string(),
        ls: None,
        vs: v,
        cfg_name: None,
    }))
}

fn named_filter(input: Op, field: ColRef, name: &str) -> Op {
    match filter(input, field) {
        Op::FilterOp(mut f) => {
            f.cfg_name = Some(name.to_string());
            Op::FilterOp(f)
        }
        other => other,
    }
}

fn join(build: Op, build_attr: ColRef, probe: Op, probe_attr: ColRef) -> Op {
    let v = VirtualSchema::cat(&build.virtual_schema(), &probe.virtual_schema());
    Op::JoinOp(Box::new(OpJoin {
        build,
        build_join_attribute: build_attr,
        probe,
        probe_join_attribute: probe_attr,
        ls: None,
        vs: v,
        cfg_name: None,
    }))
}

fn projection(input: Op, columns: &[ColRef]) -> Op {
    let v = input.virtual_schema();
    Op::ProjectionOp(Box::new(OpProjection {
        input,
        projection: columns.to_vec(),
        ls: None,
        vs: v,
        cfg_name: None,
    }))
}

fn wrapped(input: Op, columns: &[ColRef]) -> Op {
    with_ls(projection(input, columns), columns)
}

fn agg(input: Op, grouping: &[ColRef], agg_field: ColRef) -> Op {
    let mut exposed = grouping.to_vec();
    exposed.push(agg_field.clone());
    Op::AggGroupOp(Box::new(OpAggGroup {
        input,
        grouping: grouping.to_vec(),
        agg_field,
        ls: None,
        vs: VirtualSchema { columns: exposed },
        cfg_name: None,
    }))
}

fn sort(input: Op, order_columns: &[ColRef], limit: u64) -> Op {
    let v = input.virtual_schema();
    Op::SortLimitOp(Box::new(OpSortLimit {
        input,
        order_columns: order_columns.to_vec(),
        order: Some(Order::ASC),
        limit,
        ls: None,
        vs: v,
        cfg_name: None,
    }))
}

fn subquery(input: Op) -> Op {
    let v = input.virtual_schema();
    Op::SubqueryProjOp(Box::new(OpSubqueryProj { input, ls: None, vs: v }))
}

fn ab_join() -> Op {
    join(scan("A", &["x", "k"]), col("A", "k"), scan("B", &["col", "k"]), col("B", "k"))
}

#[test]
fn pushdown_leaves_a_scan_alone() {
    assert_eq!(pushdown_filters(scan("A", &["x"])), Ok(scan("A", &["x"])));
}

#[test]
fn pushdown_keeps_a_filter_above_a_scan_or_a_filter() {
    let one = filter(scan("A", &["x"]), col("A", "x"));
    assert_eq!(pushdown_filters(one.clone()), Ok(one.clone()));
    let two = filter(one, col("A", "x"));
    assert_eq!(pushdown_filters(two.clone()), Ok(two));
}

#[test]
fn pushdown_moves_a_filter_onto_the_probe_side_that_supplies_its_column() {
    let plan = named_filter(ab_join(), col("B", "col"), "f");
    let expected = join(
        scan("A", &["x", "k"]),
        col("A", "k"),
        named_filter(scan("B", &["col", "k"]), col("B", "col"), "f"),
        col("B", "k"),
    );
    // the join keeps its own virtual schema
    let result = pushdown_filters(plan).unwrap();
    assert_eq!(result, expected);
    match result {
        Op::JoinOp(j) => {
            assert_eq!(j.build_join_attribute, col("A", "k"));
            assert_eq!(j.probe_join_attribute, col("B", "k"));
            assert!(matches!(j.probe, Op::FilterOp(_)));
            assert!(matches!(j.build, Op::ScanOp(_)));
        }
        other => panic!("expected a join, found {:?}", other),
    }
}

#[test]
fn pushdown_moves_a_filter_onto_the_build_side_that_supplies_its_column() {
    let plan = filter(ab_join(), col("A", "x"));
    let expected = join(
        filter(scan("A", &["x", "k"]), col("A", "x")),
        col("A", "k"),
        scan("B", &["col", "k"]),
        col("B", "k"),
    );
    // the virtual schema of the join is still that of the two scans
    let mut expected = expected;
    if let Op::JoinOp(j) = &mut expected {
        j.vs = ab_join().virtual_schema();
    }
    assert_eq!(pushdown_filters(plan), Ok(expected));
}

#[test]
fn pushdown_keeps_a_filter_above_a_join_that_cannot_supply_its_column() {
    let plan = filter(ab_join(), col("Z", "z"));
    assert_eq!(pushdown_filters(plan.clone()), Ok(plan));
}

#[test]
fn the_moved_filter_takes_over_the_schemas_of_its_new_input() {
    let build = resolved_scan("A", &["x", "k"]);
    let probe = resolved_scan("B", &["col", "k"]);
    let plan = filter(join(build, col("A", "k"), probe, col("B", "k")), col("B", "col"));
    match pushdown_filters(plan).unwrap() {
        Op::JoinOp(j) => match j.probe {
            Op::FilterOp(f) => {
                assert_eq!(f.ls, ls(&[col("B", "col"), col("B", "k")]));
                assert_eq!(f.vs, vs(&[col("B", "col"), col("B", "k")]));
            }
            other => panic!("expected a filter, found {:?}", other),
        },
        other => panic!("expected a join, found {:?}", other),
    }
}

#[test]
fn pushdown_over_an_aggregation_is_refused() {
    let plan = filter(
        agg(scan("A", &["x", "y"]), &[col("A", "x")], sum(col("A", "y"))),
        col("A", "x"),
    );
    assert_eq!(pushdown_filters(plan), Err(PlanError::PushdownAcrossAggregationUnsupported));
}

#[test]
fn pushdown_over_an_aggregation_is_refused_wherever_it_stands() {
    let inner = filter(
        agg(scan("A", &["x", "y"]), &[col("A", "x")], sum(col("A", "y"))),
        col("A", "x"),
    );
    let plan = sort(projection(inner, &[col("A", "x")]), &[], 3);
    assert_eq!(pushdown_filters(plan), Err(PlanError::PushdownAcrossAggregationUnsupported));
    let in_join = join(
        scan("B", &["k"]),
        col("B", "k"),
        filter(
            agg(scan("A", &["x", "y"]), &[col("A", "x")], sum(col("A", "y"))),
            sum(col("A", "y")),
        ),
        col("A", "x"),
    );
    assert_eq!(pushdown_filters(in_join), Err(PlanError::PushdownAcrossAggregationUnsupported));
}

#[test]
fn an_aggregation_above_a_filter_is_no_obstacle() {
    let plan = agg(
        filter(scan("A", &["x", "y"]), col("A", "x")),
        &[col("A", "x")],
        sum(col("A", "y")),
    );
    assert_eq!(pushdown_filters(plan.clone()), Ok(plan));
}

#[test]
fn pushdown_moves_a_filter_beneath_a_projection() {
    let plan = filter(projection(scan("A", &["x", "y"]), &[col("A", "x")]), col("A", "y"));
    let expected =
        projection(filter(scan("A", &["x", "y"]), col("A", "y")), &[col("A", "x")]);
    assert_eq!(pushdown_filters(plan), Ok(expected));
}

#[test]
fn pushdown_moves_a_filter_beneath_a_sort() {
    let plan = filter(sort(scan("A", &["x", "y"]), &[col("A", "x")], 10), col("A", "y"));
    let expected = sort(filter(scan("A", &["x", "y"]), col("A", "y")), &[col("A", "x")], 10);
    assert_eq!(pushdown_filters(plan), Ok(expected));
}

#[test]
fn pushdown_keeps_a_filter_above_a_pass_through() {
    let plan = filter(subquery(scan("A", &["x"])), col("A", "x"));
    assert_eq!(pushdown_filters(plan.clone()), Ok(plan));
}

#[test]
fn pushdown_reaches_the_filters_below_other_operators() {
    let plan = sort(filter(ab_join(), col("B", "col")), &[], 5);
    let mut pushed = join(
        scan("A", &["x", "k"]),
        col("A", "k"),
        filter(scan("B", &["col", "k"]), col("B", "col")),
        col("B", "k"),
    );
    if let Op::JoinOp(j) = &mut pushed {
        j.vs = ab_join().virtual_schema();
    }
    let mut expected = sort(pushed, &[], 5);
    if let Op::SortLimitOp(s) = &mut expected {
        s.vs = ab_join().virtual_schema();
    }
    assert_eq!(pushdown_filters(plan), Ok(expected));
}

#[test]
fn pushdown_moves_a_filter_one_step_only() {
    // above a join of joins the filter lands on the inner join and stays there
    let inner = ab_join();
    let outer = join(scan("C", &["k"]), col("C", "k"), inner, col("A", "k"));
    let plan = filter(outer, col("B", "col"));
    match pushdown_filters(plan).unwrap() {
        Op::JoinOp(j) => match j.probe {
            Op::FilterOp(f) => assert!(matches!(f.input, Op::JoinOp(_))),
            other => panic!("expected a filter, found {:?}", other),
        },
        other => panic!("expected a join, found {:?}", other),
    }
}

#[test]
fn coercion_returns_a_node_whose_columns_match_in_order() {
    let op = resolved_scan("A", &["x", "y"]);
    let target = [col("A", "x"), col("A", "y")];
    assert_eq!(coerce_projection(op.clone(), &target, true), op);
}

#[test]
fn coercion_returns_a_node_whose_columns_match_as_a_set() {
    let op = resolved_scan("A", &["x", "y"]);
    let target = [col("A", "y"), col("A", "x"), col("A", "y")];
    assert_eq!(coerce_projection(op.clone(), &target, false), op);
}

#[test]
fn coercion_projects_where_the_order_is_forced_and_differs() {
    let op = resolved_scan("A", &["x", "y"]);
    let target = [col("A", "y"), col("A", "x")];
    assert_eq!(coerce_projection(op.clone(), &target, true), wrapped(op, &target));
}

#[test]
fn coercion_projects_where_the_sets_differ() {
    let op = resolved_scan("A", &["x", "y"]);
    let target = [col("A", "x")];
    assert_eq!(coerce_projection(op.clone(), &target, false), wrapped(op, &target));
}

#[test]
fn a_scan_puts_out_all_its_columns() {
    let target = [col("A", "y"), col("A", "x")];
    assert_eq!(
        local_project(scan("A", &["x", "y"]), &target, false),
        Ok(resolved_scan("A", &["x", "y"]))
    );
    assert_eq!(
        local_project(scan("A", &["x", "y"]), &target, true),
        Ok(wrapped(resolved_scan("A", &["x", "y"]), &target))
    );
    assert_eq!(
        local_project(scan("A", &["x", "y"]), &[col("A", "y")], false),
        Ok(wrapped(resolved_scan("A", &["x", "y"]), &[col("A", "y")]))
    );
}

#[test]
fn a_request_out_of_reach_is_refused() {
    assert_eq!(
        local_project(scan("A", &["x"]), &[col("A", "nope")], false),
        Err(PlanError::ColumnNotFound)
    );
    assert_eq!(
        local_project(filter(ab_join(), col("A", "x")), &[col("C", "x")], true),
        Err(PlanError::ColumnNotFound)
    );
}

#[test]
fn a_join_asks_both_sides_for_the_attributes_first() {
    let target = [col("B", "col"), col("A", "x")];
    let result = local_project(ab_join(), &target, true).unwrap();
    let build_cols = [col("A", "k"), col("A", "x")];
    let probe_cols = [col("B", "k"), col("B", "col")];
    let expected = with_ls(
        join(
            wrapped(resolved_scan("A", &["x", "k"]), &build_cols),
            col("A", "k"),
            // the probe side is free in its order: the scan's own columns do
            resolved_scan("B", &["col", "k"]),
            col("B", "k"),
        ),
        &target,
    );
    let mut expected = expected;
    if let Op::JoinOp(j) = &mut expected {
        j.vs = ab_join().virtual_schema();
    }
    assert_eq!(result, expected);
    let _ = probe_cols;
}

#[test]
fn a_join_takes_exactly_what_was_asked_as_its_own_columns() {
    let target = [col("A", "k"), col("B", "col"), col("A", "k")];
    let result = local_project(ab_join(), &target, false).unwrap();
    assert_eq!(result.local_schema(), ls(&target));
    assert!(matches!(result, Op::JoinOp(_)));
}

#[test]
fn a_filter_asks_for_its_field_too() {
    let plan = filter(scan("A", &["x", "y"]), col("A", "y"));
    let target = [col("A", "x")];
    let result = local_project(plan, &target, true).unwrap();
    let below = resolved_scan("A", &["x", "y"]);
    let kept = with_ls(filter(below, col("A", "y")), &[col("A", "x"), col("A", "y")]);
    assert_eq!(result, wrapped(kept, &target));
}

#[test]
fn a_filter_adopts_the_columns_of_its_input() {
    let plan = filter(scan("A", &["x", "y"]), col("A", "x"));
    let target = [col("A", "y"), col("A", "x")];
    let result = local_project(plan, &target, false).unwrap();
    let kept = with_ls(
        filter(resolved_scan("A", &["x", "y"]), col("A", "x")),
        &[col("A", "x"), col("A", "y")],
    );
    assert_eq!(result, kept);
}

#[test]
fn a_projection_dissolves_into_what_is_asked() {
    let plan = projection(scan("A", &["x", "y"]), &[col("A", "y")]);
    let target = [col("A", "y"), col("A", "x")];
    assert_eq!(
        local_project(plan, &target, false),
        Ok(resolved_scan("A", &["x", "y"]))
    );
    let plan = projection(scan("A", &["x", "y"]), &[col("A", "y")]);
    assert_eq!(
        local_project(plan, &[col("A", "x")], true),
        Ok(wrapped(resolved_scan("A", &["x", "y"]), &[col("A", "x")]))
    );
}

#[test]
fn an_aggregation_asks_for_its_groups_and_its_source_in_order() {
    let plan = agg(scan("A", &["v", "g"]), &[col("A", "g")], sum(col("A", "v")));
    let target = [col("A", "g"), sum(col("A", "v"))];
    let result = local_project(plan, &target, true).unwrap();
    let input = wrapped(resolved_scan("A", &["v", "g"]), &[col("A", "g"), col("A", "v")]);
    let expected = with_ls(agg(input, &[col("A", "g")], sum(col("A", "v"))), &target);
    assert_eq!(result, expected);
}

#[test]
fn an_aggregation_is_projected_where_less_is_asked() {
    let plan = agg(scan("A", &["g", "v"]), &[col("A", "g")], sum(col("A", "v")));
    let target = [sum(col("A", "v"))];
    let result = local_project(plan, &target, true).unwrap();
    let own = [col("A", "g"), sum(col("A", "v"))];
    let expected = wrapped(
        with_ls(agg(resolved_scan("A", &["g", "v"]), &[col("A", "g")], sum(col("A", "v"))), &own),
        &target,
    );
    assert_eq!(result, expected);
}

#[test]
fn an_aggregation_of_no_aggregate_is_refused() {
    let plan = agg(scan("A", &["g", "v"]), &[col("A", "g")], col("A", "v"));
    assert_eq!(
        local_project(plan, &[col("A", "g")], true),
        Err(PlanError::MissingOrExtraAggregate)
    );
}

#[test]
fn a_sort_asks_for_its_order_columns_too() {
    let plan = sort(scan("A", &["x", "y"]), &[col("A", "y")], 10);
    let target = [col("A", "x")];
    let result = local_project(plan, &target, true).unwrap();
    let kept = with_ls(
        sort(resolved_scan("A", &["x", "y"]), &[col("A", "y")], 10),
        &[col("A", "x"), col("A", "y")],
    );
    assert_eq!(result, wrapped(kept, &target));
}

#[test]
fn a_pass_through_adopts_the_columns_of_its_input() {
    let plan = subquery(scan("A", &["x"]));
    let result = local_project(plan, &[col("A", "x")], true).unwrap();
    assert_eq!(result, with_ls(subquery(resolved_scan("A", &["x"])), &[col("A", "x")]));
}

#[test]
fn resolution_adds_no_projection_where_the_columns_already_match() {
    let target = [col("A", "x"), col("A", "y")];
    assert!(matches!(local_project(scan("A", &["x", "y"]), &target, true), Ok(Op::ScanOp(_))));
    let swapped = [col("A", "y"), col("A", "x")];
    assert!(matches!(local_project(scan("A", &["x", "y"]), &swapped, false), Ok(Op::ScanOp(_))));
    assert!(matches!(
        local_project(scan("A", &["x", "y"]), &swapped, true),
        Ok(Op::ProjectionOp(_))
    ));
    let plan = filter(scan("A", &["x", "y"]), col("A", "x"));
    assert!(matches!(local_project(plan, &swapped, false), Ok(Op::FilterOp(_))));
}

fn check_resolved(op: &Op) {
    let own = op.local_schema().expect("every node has a local schema").columns;
    let columns_of = |child: &Op| child.local_schema().expect("resolved child").columns;
    match op {
        Op::ScanOp(o) => assert_eq!(own, o.vs.columns),
        Op::JoinOp(o) => {
            check_resolved(&o.build);
            check_resolved(&o.probe);
            let b = columns_of(&o.build);
            let p = columns_of(&o.probe);
            assert!(b.contains(&o.build_join_attribute));
            assert!(p.contains(&o.probe_join_attribute));
            for c in &own {
                assert!(b.contains(c) || p.contains(c));
            }
        }
        Op::FilterOp(o) => {
            check_resolved(&o.input);
            assert_eq!(own, columns_of(&o.input));
            assert!(own.contains(&o.field));
        }
        Op::ProjectionOp(o) => {
            check_resolved(&o.input);
            assert_eq!(own, o.projection);
            let below = columns_of(&o.input);
            assert!(below != o.projection, "a redundant projection");
            for c in &o.projection {
                assert!(below.contains(c));
            }
        }
        Op::AggGroupOp(o) => {
            check_resolved(&o.input);
            let below = columns_of(&o.input);
            for c in &o.grouping {
                assert!(below.contains(c));
            }
            match &o.agg_field {
                ColRef::AggregateRef { source, .. } => assert!(below.contains(source)),
                other => panic!("no aggregate: {:?}", other),
            }
        }
        Op::SortLimitOp(o) => {
            check_resolved(&o.input);
            assert_eq!(own, columns_of(&o.input));
            for c in &o.order_columns {
                assert!(own.contains(c));
            }
        }
        Op::SubqueryProjOp(o) => {
            check_resolved(&o.input);
            assert_eq!(own, columns_of(&o.input));
        }
    }
}

#[test]
fn after_resolution_every_column_is_found_where_it_is_looked_up() {
    let inner = filter(ab_join(), col("B", "col"));
    let outer = join(scan("C", &["k", "v"]), col("C", "k"), inner, col("A", "k"));
    let grouped = agg(outer, &[col("A", "x")], sum(col("C", "v")));
    let plan = sort(grouped, &[col("A", "x")], 7);
    for force in [true, false] {
        let target = [sum(col("C", "v")), col("A", "x")];
        let result = local_project(plan.clone(), &target, force).unwrap();
        check_resolved(&result);
    }
    let target = [col("A", "x"), sum(col("C", "v"))];
    let result = local_project(plan, &target, true).unwrap();
    check_resolved(&result);
    assert_eq!(result.local_schema(), ls(&target));
}
