use rpsql_planner::conf_value::{set_member, ConfValue};
use rpsql_planner::conf_writer::{name_op, plan_to_json, ConfigNamespace};
use rpsql_planner::error::PlanError;
use rpsql_planner::metadata::{MetaType, Metadata};
use rpsql_planner::ops::{ColRef, Op, OpFilter, OpJoin, OpScan};
use rpsql_planner::planner::{LocalSchema, VirtualSchema};

fn col(table: &str, column: &str) -> ColRef {
    ColRef::TableRef { table: table.to_string(), column: column.to_string() }
}

fn scan(alias: &str, columns: &[&str], resolved: bool) -> Op {
    let cols: Vec<ColRef> = columns.iter().map(|c| col(alias, c)).collect();
    Op::ScanOp(Box::new(OpScan {
        file: format!("{}.tbl", alias),
        filetype: "text".to_string(),
        tab_name: alias.to_string(),
        schema: columns.iter().map(|_| MetaType::LONG).collect(),
        ls: if resolved { Some(LocalSchema { columns: cols.clone() }) } else { None },
        vs: VirtualSchema { columns: cols },
        cfg_name: None,
    }))
}

fn name_of(op: &Op) -> Option<String> {
    match op {
        Op::ScanOp(o) => o.cfg_name.clone(),
        Op::JoinOp(o) => o.cfg_name.clone(),
        Op::FilterOp(o) => o.cfg_name.clone(),
        Op::ProjectionOp(o) => o.cfg_name.clone(),
        Op::AggGroupOp(o) => o.cfg_name.clone(),
        Op::SortLimitOp(o) => o.cfg_name.clone(),
        Op::SubqueryProjOp(_) => None,
    }
}

#[test]
fn the_namespace_numbers_a_name_from_its_second_use() {
    let mut ns = ConfigNamespace::new();
    assert_eq!(ns.name_operator("join"), "join");
    assert_eq!(ns.name_operator("join"), "join2");
    assert_eq!(ns.name_operator("filter"), "filter");
    assert_eq!(ns.name_operator("join"), "join3");
    assert_eq!(ns.name_operator("filter"), "filter2");
    for _ in 4..10 {
        ns.name_operator("join");
    }
    assert_eq!(ns.name_operator("join"), "join10");
}

#[test]
fn operators_are_named_inputs_first() {
    let join = Op::JoinOp(Box::new(OpJoin {
        build: scan("A", &["x"], true),
        build_join_attribute: col("A", "x"),
        probe: scan("A", &["x"], true),
        probe_join_attribute: col("A", "x"),
        ls: None,
        vs: VirtualSchema { columns: vec![] },
        cfg_name: Some("given".to_string()),
    }));
    let mut ns = ConfigNamespace::new();
    match name_op(join, &mut ns) {
        Op::JoinOp(j) => {
            assert_eq!(j.cfg_name, Some("given".to_string()));
            assert_eq!(name_of(&j.build), Some("scanA".to_string()));
            assert_eq!(name_of(&j.probe), Some("scanA2".to_string()));
        }
        other => panic!("expected a join, found {:?}", other),
    }
    assert_eq!(ns.name_operator("join"), "join");
}

#[test]
fn values_are_written_as_compact_json() {
    let v = ConfValue::Object(vec![
        ("a".to_string(), ConfValue::Number(1)),
        ("b".to_string(), ConfValue::List(vec![])),
        (
            "c".to_string(),
            ConfValue::List(vec![
                ConfValue::Text("x".to_string()),
                ConfValue::Number(18446744073709551615),
                ConfValue::Object(vec![]),
            ]),
        ),
    ]);
    assert_eq!(v.render(), "{\"a\":1,\"b\":[],\"c\":[\"x\",18446744073709551615,{}]}");
    assert_eq!(ConfValue::Number(0).render(), "0");
    assert_eq!(ConfValue::Text(String::new()).render(), "\"\"");
}

#[test]
fn strings_and_keys_are_escaped_as_json_wants() {
    let v = ConfValue::Object(vec![(
        "k\"ey".to_string(),
        ConfValue::Text("a\"b\\c\nd\te\u{1}".to_string()),
    )]);
    let text = v.render();
    assert_eq!(text, "{\"k\\\"ey\":\"a\\\"b\\\\c\\nd\\te\\u0001\"}");
    let back = json::parse(&text).unwrap();
    assert_eq!(back["k\"ey"], "a\"b\\c\nd\te\u{1}");
}

#[test]
fn what_is_written_reads_back_as_the_same_document() {
    let v = ConfValue::Object(vec![
        ("name".to_string(), ConfValue::Text("caf\u{e9} \u{1f600}".to_string())),
        ("n".to_string(), ConfValue::Number(42)),
    ]);
    let back = json::parse(&v.render()).unwrap();
    assert_eq!(back["name"], "caf\u{e9} \u{1f600}");
    assert_eq!(back["n"], 42);
    assert_eq!(back.dump(), v.render());
}

#[test]
fn setting_a_member_replaces_in_place_or_appends() {
    let mut members: Vec<(String, ConfValue)> = Vec::new();
    set_member(&mut members, "a".to_string(), ConfValue::Number(1));
    set_member(&mut members, "b".to_string(), ConfValue::Number(2));
    set_member(&mut members, "a".to_string(), ConfValue::Number(3));
    assert_eq!(
        members,
        vec![("a".to_string(), ConfValue::Number(3)), ("b".to_string(), ConfValue::Number(2))]
    );
}

#[test]
fn a_join_is_written_with_the_positions_of_its_columns() {
    let build = scan("A", &["k", "x"], true);
    let probe = scan("B", &["y", "k"], true);
    let own = vec![col("B", "y"), col("A", "x"), col("A", "k")];
    let join = Op::JoinOp(Box::new(OpJoin {
        build,
        build_join_attribute: col("A", "k"),
        probe,
        probe_join_attribute: col("B", "k"),
        ls: Some(LocalSchema { columns: own }),
        vs: VirtualSchema { columns: vec![] },
        cfg_name: None,
    }));
    let meta = Metadata { path: "p".to_string(), buffsize: 8, tables: vec![] };
    let text = plan_to_json(join, &meta).unwrap();
    let expected = [
        "{\"path\":\"p\",\"buffsize\":8,",
        "\"treeroot\":{\"name\":\"join\",\"build\":{\"name\":\"scanA\"},",
        "\"probe\":{\"name\":\"scanB\"}},",
        "\"scanA\":{\"type\":\"scan\",\"filetype\":\"text\",\"file\":\"A.tbl\",",
        "\"schema\":[\"long\",\"long\"]},",
        "\"scanB\":{\"type\":\"scan\",\"filetype\":\"text\",\"file\":\"B.tbl\",",
        "\"schema\":[\"long\",\"long\"]},",
        "\"join\":{\"type\":\"hashjoin\",\"buildjattr\":0,\"probejattr\":1,",
        "\"hash\":{\"fn\":\"modulo\",\"buckets\":10000},\"tuplesperbucket\":4,",
        "\"projection_tuple\":[\"P$0\",\"B$1\",\"B$0\"],",
        "\"threadgroups_tuple\":[[0]],\"allocpolicy\":\"striped\"}}"
    ].concat();
    assert_eq!(text, expected);
}

#[test]
fn a_plan_before_schema_resolution_cannot_be_written() {
    let meta = Metadata::from_default();
    let filter = Op::FilterOp(Box::new(OpFilter {
        input: scan("A", &["x"], false),
        op: "<".to_string(),
        field: col("A", "x"),
        value: "1".to_string(),
        ls: None,
        vs: VirtualSchema { columns: vec![col("A", "x")] },
        cfg_name: None,
    }));
    assert_eq!(plan_to_json(filter, &meta), Err(PlanError::ColumnNotFound));
}

#[test]
fn a_bare_scan_is_written_even_before_schema_resolution() {
    let meta = Metadata { path: "p".to_string(), buffsize: 8, tables: vec![] };
    assert_eq!(
        plan_to_json(scan("A", &["x"], false), &meta),
        Ok([
            "{\"path\":\"p\",\"buffsize\":8,\"treeroot\":{\"name\":\"scanA\"},",
            "\"scanA\":{\"type\":\"scan\",\"filetype\":\"text\",\"file\":\"A.tbl\",",
            "\"schema\":[\"long\"]}}"
        ].concat())
    );
}

#[test]
fn an_operator_named_like_a_head_entry_replaces_it() {
    let meta = Metadata { path: "p".to_string(), buffsize: 8, tables: vec![] };
    let mut op = scan("A", &["x"], true);
    if let Op::ScanOp(s) = &mut op {
        s.cfg_name = Some("path".to_string());
    }
    let text = plan_to_json(op, &meta).unwrap();
    assert!(text.starts_with("{\"path\":{\"type\":\"scan\""));
}
