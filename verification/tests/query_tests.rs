use rpsql_planner::agg_grouping::AggGrouping;
use rpsql_planner::error::PlanError;
use rpsql_planner::metadata::MetaType;
use rpsql_planner::ops::{AggFunc, ColRef, Op, OpAggGroup, OpScan, OpSortLimit, Order};
use rpsql_planner::planner::VirtualSchema;
use rpsql_planner::projection::{convert_expr, Projection};
use rpsql_planner::query::{
    SqlExpr, SqlFunctionArg, SqlOrderByExpr, SqlQuery, SqlSelect, SqlSelectItem, SqlSetExpr,
};
use rpsql_planner::sort_limit::{SortLimit, NO_LIMIT};

fn col(table: &str, column: &str) -> ColRef {
    ColRef::TableRef { table: table.to_string(), column: column.to_string() }
}

fn sum(of: ColRef) -> ColRef {
    ColRef::AggregateRef { func: AggFunc::Sum, source: Box::new(of) }
}

fn ident(table: &str, column: &str) -> SqlExpr {
    SqlExpr::CompoundIdentifier(vec![table.to_string(), column.to_string()])
}

fn call(name: &str, args: Vec<SqlFunctionArg>) -> SqlExpr {
    SqlExpr::Function { name: vec![name.to_string()], args }
}

fn scan(alias: &str, columns: &[&str]) -> Op {
    Op::ScanOp(Box::new(OpScan {
        file: format!("{}.tbl", alias),
        filetype: "text".to_string(),
        tab_name: alias.to_string(),
        schema: columns.iter().map(|_| MetaType::LONG).collect(),
        ls: None,
        vs: VirtualSchema { columns: columns.iter().map(|c| col(alias, c)).collect() },
        cfg_name: None,
    }))
}

fn select(projection: Vec<SqlSelectItem>, group_by: Vec<SqlExpr>) -> SqlSelect {
    SqlSelect { projection, from: vec![], selection: None, group_by }
}

fn query(order_by: Vec<SqlOrderByExpr>, limit: Option<SqlExpr>) -> SqlQuery {
    SqlQuery { body: SqlSetExpr::Other, order_by, limit }
}

fn order(table: &str, column: &str, asc: Option<bool>) -> SqlOrderByExpr {
    SqlOrderByExpr { expr: ident(table, column), asc }
}

#[test]
fn convert_expr_reads_a_qualified_column() {
    assert_eq!(convert_expr(&ident("O", "ZIP")), Ok(col("O", "ZIP")));
}

#[test]
fn convert_expr_reads_an_aggregate_in_any_case() {
    let e = call("SUM", vec![SqlFunctionArg::Unnamed(ident("P", "COST"))]);
    assert_eq!(convert_expr(&e), Ok(sum(col("P", "COST"))));
    let e = call("count", vec![SqlFunctionArg::Unnamed(ident("P", "COST"))]);
    assert_eq!(
        convert_expr(&e),
        Ok(ColRef::AggregateRef { func: AggFunc::Count, source: Box::new(col("P", "COST")) })
    );
}

#[test]
fn convert_expr_reads_an_aggregate_of_an_aggregate() {
    let inner = call("sum", vec![SqlFunctionArg::Unnamed(ident("P", "COST"))]);
    let e = call("count", vec![SqlFunctionArg::Unnamed(inner)]);
    assert_eq!(
        convert_expr(&e),
        Ok(ColRef::AggregateRef { func: AggFunc::Count, source: Box::new(sum(col("P", "COST"))) })
    );
}

#[test]
fn convert_expr_refuses_what_is_not_supported() {
    let bad = Err(PlanError::UnsupportedSqlConstruct);
    assert_eq!(convert_expr(&SqlExpr::Identifier("COST".to_string())), bad);
    assert_eq!(convert_expr(&SqlExpr::Number("1".to_string())), bad);
    assert_eq!(convert_expr(&SqlExpr::Other), bad);
    assert_eq!(convert_expr(&SqlExpr::Nested(Box::new(ident("P", "COST")))), bad);
    assert_eq!(convert_expr(&call("avg", vec![SqlFunctionArg::Unnamed(ident("P", "COST"))])), bad);
    assert_eq!(convert_expr(&call("sum", vec![])), bad);
    assert_eq!(convert_expr(&call("sum", vec![SqlFunctionArg::Named])), bad);
    assert_eq!(
        convert_expr(&call(
            "sum",
            vec![
                SqlFunctionArg::Unnamed(ident("P", "COST")),
                SqlFunctionArg::Unnamed(ident("P", "COST"))
            ]
        )),
        bad
    );
    assert_eq!(
        convert_expr(&SqlExpr::Function {
            name: vec!["db".to_string(), "sum".to_string()],
            args: vec![SqlFunctionArg::Unnamed(ident("P", "COST"))]
        }),
        bad
    );
    assert_eq!(
        convert_expr(&call("sum", vec![SqlFunctionArg::Unnamed(SqlExpr::Other)])),
        bad
    );
}

#[test]
fn a_projection_names_its_items_by_alias_or_position() {
    let items = vec![
        SqlSelectItem::UnnamedExpr(ident("O", "ZIP")),
        SqlSelectItem::ExprWithAlias {
            expr: call("sum", vec![SqlFunctionArg::Unnamed(ident("P", "COST"))]),
            alias: "total".to_string(),
        },
        SqlSelectItem::UnnamedExpr(ident("O", "OKEY")),
    ];
    let p = Projection::from_items(&items).unwrap();
    assert_eq!(p.items, vec![col("O", "ZIP"), sum(col("P", "COST")), col("O", "OKEY")]);
    assert_eq!(p.aliases, vec!["_0".to_string(), "total".to_string(), "_2".to_string()]);
    assert_eq!(p.needed_projection(), p.items);
    assert_eq!(p.needed_projection_aliases(), p.aliases);
}

#[test]
fn a_projection_numbers_unnamed_items_past_nine() {
    let items: Vec<SqlSelectItem> =
        (0..12).map(|_| SqlSelectItem::UnnamedExpr(ident("O", "ZIP"))).collect();
    let p = Projection::from_items(&items).unwrap();
    assert_eq!(p.aliases[9], "_9");
    assert_eq!(p.aliases[10], "_10");
    assert_eq!(p.aliases[11], "_11");
}

#[test]
fn a_projection_refuses_wildcards() {
    let bad = Some(PlanError::UnsupportedSqlConstruct);
    assert_eq!(Projection::from_items(&vec![SqlSelectItem::Wildcard]).err(), bad);
    assert_eq!(Projection::from_items(&vec![SqlSelectItem::QualifiedWildcard]).err(), bad);
    assert_eq!(
        Projection::from_items(&vec![
            SqlSelectItem::UnnamedExpr(ident("O", "ZIP")),
            SqlSelectItem::UnnamedExpr(SqlExpr::Identifier("ZIP".to_string()))
        ])
        .err(),
        bad
    );
    assert_eq!(
        Projection::from_items(&vec![]),
        Ok(Projection { items: vec![], aliases: vec![] })
    );
}

#[test]
fn no_grouping_and_no_aggregate_wraps_nothing() {
    let projection = Projection { items: vec![col("A", "x")], aliases: vec!["x".to_string()] };
    let g = AggGrouping::from_query(&select(vec![], vec![]), &projection).unwrap();
    assert!(!g.has_aggregate());
    assert_eq!(g.apply_agg_grouping_ops(scan("A", &["x"])), scan("A", &["x"]));
}

#[test]
fn grouping_wraps_the_plan_in_an_aggregation() {
    let projection = Projection {
        items: vec![col("A", "g"), sum(col("A", "v"))],
        aliases: vec!["g".to_string(), "s".to_string()],
    };
    let g = AggGrouping::from_query(&select(vec![], vec![ident("A", "g")]), &projection).unwrap();
    assert!(g.has_aggregate());
    let expected = Op::AggGroupOp(Box::new(OpAggGroup {
        input: scan("A", &["g", "v"]),
        grouping: vec![col("A", "g")],
        agg_field: sum(col("A", "v")),
        ls: None,
        vs: VirtualSchema { columns: vec![col("A", "g"), sum(col("A", "v"))] },
        cfg_name: None,
    }));
    assert_eq!(g.apply_agg_grouping_ops(scan("A", &["g", "v"])), expected);
}

#[test]
fn the_same_aggregate_twice_is_one_aggregate() {
    let projection = Projection {
        items: vec![sum(col("A", "v")), col("A", "g"), sum(col("A", "v"))],
        aliases: vec!["a".to_string(), "b".to_string(), "c".to_string()],
    };
    assert!(AggGrouping::from_query(&select(vec![], vec![ident("A", "g")]), &projection).is_ok());
}

#[test]
fn two_different_aggregates_are_refused() {
    let projection = Projection {
        items: vec![sum(col("A", "v")), sum(col("A", "w"))],
        aliases: vec!["a".to_string(), "b".to_string()],
    };
    assert_eq!(
        AggGrouping::from_query(&select(vec![], vec![ident("A", "g")]), &projection).err(),
        Some(PlanError::MultipleAggregatesUnsupported)
    );
}

#[test]
fn grouping_without_aggregate_and_aggregate_without_grouping_are_refused() {
    let plain = Projection { items: vec![col("A", "g")], aliases: vec!["g".to_string()] };
    assert_eq!(
        AggGrouping::from_query(&select(vec![], vec![ident("A", "g")]), &plain).err(),
        Some(PlanError::MissingOrExtraAggregate)
    );
    let aggregate =
        Projection { items: vec![sum(col("A", "v"))], aliases: vec!["s".to_string()] };
    assert_eq!(
        AggGrouping::from_query(&select(vec![], vec![]), &aggregate).err(),
        Some(PlanError::MissingOrExtraAggregate)
    );
}

#[test]
fn a_group_by_item_must_be_a_qualified_column() {
    let projection = Projection {
        items: vec![col("A", "g"), sum(col("A", "v"))],
        aliases: vec!["g".to_string(), "s".to_string()],
    };
    let bad = Some(PlanError::UnsupportedSqlConstruct);
    assert_eq!(
        AggGrouping::from_query(
            &select(vec![], vec![SqlExpr::Identifier("g".to_string())]),
            &projection
        )
        .err(),
        bad
    );
    assert_eq!(
        AggGrouping::from_query(
            &select(vec![], vec![ident("A", "g"), SqlExpr::Number("1".to_string())]),
            &projection
        )
        .err(),
        bad
    );
}

#[test]
fn no_order_and_no_limit_wraps_nothing() {
    let sl = SortLimit::from_query(&query(vec![], None)).unwrap();
    assert_eq!(sl.apply_sort_limit_ops(scan("A", &["x"])), scan("A", &["x"]));
}

#[test]
fn the_limit_that_means_no_limit_is_the_largest_32_bit_integer() {
    assert_eq!(NO_LIMIT, 2147483647);
    assert_eq!(NO_LIMIT, i32::MAX as u64);
    let sl =
        SortLimit::from_query(&query(vec![], Some(SqlExpr::Number("2147483647".to_string()))))
            .unwrap();
    assert_eq!(sl.apply_sort_limit_ops(scan("A", &["x"])), scan("A", &["x"]));
}

#[test]
fn a_limit_alone_wraps_the_plan() {
    let sl = SortLimit::from_query(&query(vec![], Some(SqlExpr::Number("10".to_string())))).unwrap();
    let expected = Op::SortLimitOp(Box::new(OpSortLimit {
        input: scan("A", &["x"]),
        order_columns: vec![],
        order: None,
        limit: 10,
        ls: None,
        vs: VirtualSchema { columns: vec![col("A", "x")] },
        cfg_name: None,
    }));
    assert_eq!(sl.apply_sort_limit_ops(scan("A", &["x"])), expected);
}

#[test]
fn the_first_direction_written_holds_for_all_columns() {
    let q = query(
        vec![
            order("A", "x", None),
            order("A", "y", Some(false)),
            order("A", "z", Some(true)),
        ],
        None,
    );
    let sl = SortLimit::from_query(&q).unwrap();
    let expected = Op::SortLimitOp(Box::new(OpSortLimit {
        input: scan("A", &["x", "y", "z"]),
        order_columns: vec![col("A", "x"), col("A", "y"), col("A", "z")],
        order: Some(Order::DESC),
        limit: NO_LIMIT,
        ls: None,
        vs: VirtualSchema { columns: vec![col("A", "x"), col("A", "y"), col("A", "z")] },
        cfg_name: None,
    }));
    assert_eq!(sl.apply_sort_limit_ops(scan("A", &["x", "y", "z"])), expected);
}

#[test]
fn an_order_without_direction_wraps_the_plan_without_one() {
    let sl = SortLimit::from_query(&query(vec![order("A", "x", None)], None)).unwrap();
    match sl.apply_sort_limit_ops(scan("A", &["x"])) {
        Op::SortLimitOp(s) => {
            assert_eq!(s.order, None);
            assert_eq!(s.order_columns, vec![col("A", "x")]);
        }
        other => panic!("expected a sort, found {:?}", other),
    }
    let sl = SortLimit::from_query(&query(vec![order("A", "x", Some(true))], None)).unwrap();
    match sl.apply_sort_limit_ops(scan("A", &["x"])) {
        Op::SortLimitOp(s) => assert_eq!(s.order, Some(Order::ASC)),
        other => panic!("expected a sort, found {:?}", other),
    }
}

#[test]
fn a_limit_must_be_a_numeral() {
    let bad = Some(PlanError::UnsupportedSqlConstruct);
    assert_eq!(SortLimit::from_query(&query(vec![], Some(ident("A", "x")))).err(), bad);
    assert_eq!(
        SortLimit::from_query(&query(vec![], Some(SqlExpr::Number("1.5".to_string())))).err(),
        bad
    );
    assert_eq!(
        SortLimit::from_query(&query(
            vec![],
            Some(SqlExpr::Number("99999999999999999999".to_string()))
        ))
        .err(),
        bad
    );
    assert_eq!(
        SortLimit::from_query(&query(
            vec![SqlOrderByExpr { expr: SqlExpr::Other, asc: None }],
            None
        ))
        .err(),
        bad
    );
}
