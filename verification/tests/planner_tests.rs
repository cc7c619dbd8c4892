use rpsql_planner::error::PlanError;
use rpsql_planner::metadata::{MetaSchema, MetaTableDef, MetaType, Metadata};
use rpsql_planner::ops::{AggFunc, ColRef, Op, OpJoin, OpScan};
use rpsql_planner::planner::{
    build_namespace, make_scan, plan_joins, FromTable, LocalSchema, VirtualSchema,
};
use rpsql_planner::query::SqlTableFactor;

fn col(table: &str, column: &str) -> ColRef {
    ColRef::TableRef { table: table.to_string(), column: column.to_string() }
}

fn table(name: &str, columns: &[&str]) -> MetaTableDef {
    MetaTableDef {
        name: name.to_string(),
        file: format!("{}.tbl", name.to_lowercase()),
        filetype: "text".to_string(),
        schema: MetaSchema {
            columns: columns.iter().map(|c| (c.to_string(), MetaType::LONG)).collect(),
        },
    }
}

fn abc_meta() -> Metadata {
    Metadata {
        path: "data/".to_string(),
        buffsize: 64,
        tables: vec![table("TA", &["x"]), table("TB", &["y"]), table("TC", &["z"])],
    }
}

fn from(alias: &str, table: &str) -> FromTable {
    FromTable { alias: alias.to_string(), table: table.to_string() }
}

fn scan(alias: &str, table: &str, columns: &[&str]) -> Op {
    Op::ScanOp(Box::new(OpScan {
        file: format!("{}.tbl", table.to_lowercase()),
        filetype: "text".to_string(),
        tab_name: table.to_string(),
        schema: columns.iter().map(|_| MetaType::LONG).collect(),
        ls: None,
        vs: VirtualSchema { columns: columns.iter().map(|c| col(alias, c)).collect() },
        cfg_name: None,
    }))
}

fn join(build: Op, build_attr: ColRef, probe: Op, probe_attr: ColRef) -> Op {
    let vs = VirtualSchema::cat(&build.virtual_schema(), &probe.virtual_schema());
    Op::JoinOp(Box::new(OpJoin {
        build,
        build_join_attribute: build_attr,
        probe,
        probe_join_attribute: probe_attr,
        ls: None,
        vs,
        cfg_name: None,
    }))
}

#[test]
fn make_scan_exposes_every_column_under_the_alias() {
    let meta = Metadata::from_default();
    let op = make_scan(&"PART".to_string(), &"P".to_string(), &meta);
    assert_eq!(
        op,
        Ok(Op::ScanOp(Box::new(OpScan {
            file: "part.tbl".to_string(),
            filetype: "text".to_string(),
            tab_name: "PART".to_string(),
            schema: vec![MetaType::LONG, MetaType::DEC],
            ls: None,
            vs: VirtualSchema { columns: vec![col("P", "PKEY"), col("P", "COST")] },
            cfg_name: None,
        })))
    );
}

#[test]
fn make_scan_takes_the_last_definition_of_a_table() {
    let mut meta = abc_meta();
    meta.tables.push(table("TA", &["x", "extra"]));
    let op = make_scan(&"TA".to_string(), &"A".to_string(), &meta).unwrap();
    assert_eq!(op.virtual_schema().columns, vec![col("A", "x"), col("A", "extra")]);
}

#[test]
fn make_scan_fails_on_a_table_that_the_metadata_lacks() {
    let meta = abc_meta();
    assert_eq!(
        make_scan(&"NOPE".to_string(), &"N".to_string(), &meta),
        Err(PlanError::UnknownTable)
    );
}

#[test]
fn virtual_schema_answers_membership() {
    let vs = VirtualSchema::from_custom(vec![col("A", "x"), col("B", "y")]);
    assert!(vs.contains(&col("A", "x")));
    assert!(vs.contains(&col("B", "y")));
    assert!(!vs.contains(&col("A", "y")));
    assert!(!VirtualSchema::from_custom(vec![]).contains(&col("A", "x")));
}

#[test]
fn virtual_schemas_concatenate_build_side_first() {
    let a = VirtualSchema::from_custom(vec![col("A", "x")]);
    let b = VirtualSchema::from_custom(vec![col("B", "y"), col("B", "z")]);
    assert_eq!(
        VirtualSchema::cat(&a, &b).columns,
        vec![col("A", "x"), col("B", "y"), col("B", "z")]
    );
}

#[test]
fn get_field_idx_gives_the_first_position() {
    let ls = LocalSchema { columns: vec![col("A", "x"), col("B", "y"), col("A", "x")] };
    assert_eq!(ls.get_field_idx(&col("A", "x")), Ok(0));
    assert_eq!(ls.get_field_idx(&col("B", "y")), Ok(1));
}

#[test]
fn get_field_idx_fails_on_a_column_that_is_absent() {
    let ls = LocalSchema { columns: vec![col("A", "x")] };
    assert_eq!(ls.get_field_idx(&col("A", "y")), Err(PlanError::ColumnNotFound));
    let agg = ColRef::AggregateRef { func: AggFunc::Sum, source: Box::new(col("A", "x")) };
    assert_eq!(ls.get_field_idx(&agg), Err(PlanError::ColumnNotFound));
}

#[test]
fn a_single_table_is_a_bare_scan_with_no_equalities() {
    let meta = abc_meta();
    let (op, facts) = plan_joins(&vec![from("A", "TA")], &vec![], &meta).unwrap();
    assert_eq!(op, scan("A", "TA", &["x"]));
    assert!(!facts.are_equal(&col("A", "x"), &col("A", "x")));
}

#[test]
fn a_single_table_ignores_the_candidate_equalities() {
    let meta = abc_meta();
    let joins = vec![(col("A", "x"), col("Q", "y"))];
    let (op, facts) = plan_joins(&vec![from("A", "TA")], &joins, &meta).unwrap();
    assert_eq!(op, scan("A", "TA", &["x"]));
    assert!(!facts.are_equal(&col("A", "x"), &col("Q", "y")));
}

#[test]
fn three_tables_in_a_chain_become_two_joins() {
    let meta = abc_meta();
    let ns = vec![from("A", "TA"), from("B", "TB"), from("C", "TC")];
    let joins = vec![(col("A", "x"), col("B", "y")), (col("B", "y"), col("C", "z"))];
    let (op, facts) = plan_joins(&ns, &joins, &meta).unwrap();
    let inner = join(scan("B", "TB", &["y"]), col("B", "y"), scan("C", "TC", &["z"]), col("C", "z"));
    let outer = join(scan("A", "TA", &["x"]), col("A", "x"), inner, col("B", "y"));
    assert_eq!(op, outer);
    assert_eq!(
        op.virtual_schema().columns,
        vec![col("A", "x"), col("B", "y"), col("C", "z")]
    );
    assert!(facts.are_equal(&col("A", "x"), &col("B", "y")));
    assert!(facts.are_equal(&col("A", "x"), &col("C", "z")));
}

#[test]
fn without_the_second_edge_there_is_no_linear_join_order() {
    let meta = abc_meta();
    let ns = vec![from("A", "TA"), from("B", "TB"), from("C", "TC")];
    let joins = vec![(col("A", "x"), col("B", "y"))];
    assert_eq!(plan_joins(&ns, &joins, &meta).err(), Some(PlanError::NoLinearJoinOrder));
}

#[test]
fn two_tables_without_an_equality_have_no_join_order() {
    let meta = abc_meta();
    let ns = vec![from("A", "TA"), from("B", "TB")];
    assert_eq!(plan_joins(&ns, &vec![], &meta).err(), Some(PlanError::NoLinearJoinOrder));
}

#[test]
fn no_table_has_no_join_order() {
    let meta = abc_meta();
    assert_eq!(plan_joins(&vec![], &vec![], &meta).err(), Some(PlanError::NoLinearJoinOrder));
}

#[test]
fn a_join_is_oriented_by_the_side_that_the_path_comes_from() {
    let meta = abc_meta();
    let ns = vec![from("A", "TA"), from("B", "TB")];
    // the edge names B first; the path starts at A, so A is the build side
    let joins = vec![(col("B", "y"), col("A", "x"))];
    let (op, _) = plan_joins(&ns, &joins, &meta).unwrap();
    assert_eq!(
        op,
        join(scan("A", "TA", &["x"]), col("A", "x"), scan("B", "TB", &["y"]), col("B", "y"))
    );
}

#[test]
fn only_the_equalities_of_the_path_are_recorded() {
    let meta = abc_meta();
    let ns = vec![from("A", "TA"), from("B", "TB"), from("C", "TC")];
    let joins = vec![
        (col("A", "x"), col("B", "y")),
        (col("B", "y"), col("C", "z")),
        (col("A", "other"), col("C", "other")),
    ];
    let (_, facts) = plan_joins(&ns, &joins, &meta).unwrap();
    assert!(facts.are_equal(&col("A", "x"), &col("C", "z")));
    assert!(!facts.are_equal(&col("A", "other"), &col("C", "other")));
}

#[test]
fn a_join_column_of_a_table_outside_the_from_list_is_not_found() {
    let meta = abc_meta();
    let ns = vec![from("A", "TA"), from("B", "TB")];
    let joins = vec![(col("A", "x"), col("Z", "y"))];
    assert_eq!(plan_joins(&ns, &joins, &meta).err(), Some(PlanError::ColumnNotFound));
}

#[test]
fn an_aggregate_is_no_join_column() {
    let meta = abc_meta();
    let ns = vec![from("A", "TA"), from("B", "TB")];
    let agg = ColRef::AggregateRef { func: AggFunc::Sum, source: Box::new(col("A", "x")) };
    let joins = vec![(agg, col("B", "y"))];
    assert_eq!(plan_joins(&ns, &joins, &meta).err(), Some(PlanError::ColumnNotFound));
}

#[test]
fn a_joined_table_that_the_metadata_lacks_fails_the_plan() {
    let meta = abc_meta();
    let ns = vec![from("A", "TA"), from("B", "MISSING")];
    let joins = vec![(col("A", "x"), col("B", "y"))];
    assert_eq!(plan_joins(&ns, &joins, &meta).err(), Some(PlanError::UnknownTable));
}

#[test]
fn the_namespace_binds_tables_under_alias_or_name() {
    let from_list = vec![
        SqlTableFactor::Table { name: vec!["PART".to_string()], alias: Some("P".to_string()) },
        SqlTableFactor::Table { name: vec!["ORDERS".to_string()], alias: None },
    ];
    assert_eq!(
        build_namespace(&from_list),
        Ok(vec![from("P", "PART"), from("ORDERS", "ORDERS")])
    );
}

#[test]
fn the_namespace_binds_an_alias_once() {
    let from_list = vec![
        SqlTableFactor::Table { name: vec!["PART".to_string()], alias: Some("T".to_string()) },
        SqlTableFactor::Table { name: vec!["LINEITEM".to_string()], alias: Some("L".to_string()) },
        SqlTableFactor::Table { name: vec!["ORDERS".to_string()], alias: Some("T".to_string()) },
    ];
    assert_eq!(
        build_namespace(&from_list),
        Ok(vec![from("T", "ORDERS"), from("L", "LINEITEM")])
    );
}

#[test]
fn the_namespace_refuses_what_is_no_plain_table() {
    let bad = Err(PlanError::UnsupportedSqlConstruct);
    assert_eq!(build_namespace(&vec![SqlTableFactor::Other]), bad);
    assert_eq!(
        build_namespace(&vec![SqlTableFactor::Table {
            name: vec!["db".to_string(), "PART".to_string()],
            alias: None
        }]),
        bad
    );
    assert_eq!(
        build_namespace(&vec![SqlTableFactor::Table { name: vec![], alias: None }]),
        bad
    );
    assert_eq!(build_namespace(&vec![]), Ok(vec![]));
}
