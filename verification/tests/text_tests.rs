use rpsql_planner::ops::{AggFunc, ColRef};
use rpsql_planner::text::{decimal_string, parse_u64};
use rpsql_planner::error::{ErrorKind, PlanError};
use rpsql_planner::metadata::{MetaType, Metadata};

#[test]
fn decimal_string_writes_numbers_without_leading_zeros() {
    assert_eq!(decimal_string(0), "0");
    assert_eq!(decimal_string(7), "7");
    assert_eq!(decimal_string(10), "10");
    assert_eq!(decimal_string(1048576), "1048576");
    assert_eq!(decimal_string(u64::MAX), "18446744073709551615");
}

#[test]
fn parse_u64_reads_digits() {
    assert_eq!(parse_u64("0"), Some(0));
    assert_eq!(parse_u64("5"), Some(5));
    assert_eq!(parse_u64("0042"), Some(42));
    assert_eq!(parse_u64("18446744073709551615"), Some(u64::MAX));
}

#[test]
fn parse_u64_takes_a_plus_sign() {
    assert_eq!(parse_u64("+17"), Some(17));
}

#[test]
fn parse_u64_refuses_what_is_no_numeral() {
    assert_eq!(parse_u64(""), None);
    assert_eq!(parse_u64("+"), None);
    assert_eq!(parse_u64("-1"), None);
    assert_eq!(parse_u64("1.5"), None);
    assert_eq!(parse_u64("12a"), None);
    assert_eq!(parse_u64(" 12"), None);
    assert_eq!(parse_u64("++1"), None);
}

#[test]
fn parse_u64_refuses_what_64_bits_cannot_hold() {
    assert_eq!(parse_u64("18446744073709551616"), None);
    assert_eq!(parse_u64("99999999999999999999999"), None);
}

#[test]
fn parse_u64_agrees_with_the_standard_library() {
    for s in ["0", "1", "+9", "007", "", "+", "x", "4294967296", "18446744073709551616", "1 "] {
        assert_eq!(parse_u64(s), s.parse::<u64>().ok(), "on {:?}", s);
    }
}

#[test]
fn parse_agg_func_reads_names_in_any_case() {
    assert_eq!(AggFunc::parse_agg_func("SUM"), Some(AggFunc::Sum));
    assert_eq!(AggFunc::parse_agg_func("sum"), Some(AggFunc::Sum));
    assert_eq!(AggFunc::parse_agg_func("Count"), Some(AggFunc::Count));
    assert_eq!(AggFunc::parse_agg_func("cOuNt"), Some(AggFunc::Count));
}

#[test]
fn parse_agg_func_knows_no_other_function() {
    assert_eq!(AggFunc::parse_agg_func("avg"), None);
    assert_eq!(AggFunc::parse_agg_func(""), None);
    assert_eq!(AggFunc::parse_agg_func("sum "), None);
}

#[test]
fn from_lowercase_is_exact_about_case() {
    assert_eq!(AggFunc::from_lowercase("sum"), Some(AggFunc::Sum));
    assert_eq!(AggFunc::from_lowercase("count"), Some(AggFunc::Count));
    assert_eq!(AggFunc::from_lowercase("SUM"), None);
}

#[test]
fn from_idents_wants_table_and_column() {
    let two = vec!["P".to_string(), "COST".to_string()];
    assert_eq!(
        ColRef::from_idents(&two),
        Ok(ColRef::TableRef { table: "P".to_string(), column: "COST".to_string() })
    );
    let one = vec!["COST".to_string()];
    assert_eq!(ColRef::from_idents(&one), Err(PlanError::UnsupportedSqlConstruct));
    let three = vec!["a".to_string(), "b".to_string(), "c".to_string()];
    assert_eq!(ColRef::from_idents(&three), Err(PlanError::UnsupportedSqlConstruct));
}

#[test]
fn column_references_compare_by_structure() {
    let a = ColRef::TableRef { table: "A".to_string(), column: "x".to_string() };
    let a2 = ColRef::TableRef { table: "A".to_string(), column: "x".to_string() };
    let b = ColRef::TableRef { table: "A".to_string(), column: "y".to_string() };
    let sum_a = ColRef::AggregateRef { func: AggFunc::Sum, source: Box::new(a.clone()) };
    let count_a = ColRef::AggregateRef { func: AggFunc::Count, source: Box::new(a.clone()) };
    let sum_b = ColRef::AggregateRef { func: AggFunc::Sum, source: Box::new(b.clone()) };
    assert!(a == a2);
    assert!(a != b);
    assert!(a != sum_a);
    assert!(sum_a != count_a);
    assert!(sum_a != sum_b);
    assert!(sum_a == sum_a.clone());
}

#[test]
fn column_references_read_as_text() {
    let a = ColRef::TableRef { table: "P".to_string(), column: "COST".to_string() };
    assert_eq!(a.to_string(), "P.COST");
    let sum = ColRef::AggregateRef { func: AggFunc::Sum, source: Box::new(a.clone()) };
    assert_eq!(sum.to_string(), "Sum(P.COST)");
    let count = ColRef::AggregateRef { func: AggFunc::Count, source: Box::new(a) };
    assert_eq!(count.to_string(), "Count(P.COST)");
}

#[test]
fn every_error_has_one_of_six_kinds() {
    assert_eq!(PlanError::UnsupportedSqlConstruct.kind(), ErrorKind::UnsupportedSqlConstruct);
    assert_eq!(PlanError::UnsupportedPredicate.kind(), ErrorKind::UnsupportedSqlConstruct);
    assert_eq!(PlanError::MissingOrExtraAggregate.kind(), ErrorKind::AmbiguousOrMissingAggregate);
    assert_eq!(
        PlanError::MultipleAggregatesUnsupported.kind(),
        ErrorKind::AmbiguousOrMissingAggregate
    );
    assert_eq!(PlanError::NoLinearJoinOrder.kind(), ErrorKind::NoLinearJoinOrder);
    assert_eq!(PlanError::UnsatisfiableEquality.kind(), ErrorKind::UnsatisfiableEquality);
    assert_eq!(PlanError::ColumnNotFound.kind(), ErrorKind::ColumnNotFound);
    assert_eq!(PlanError::UnknownTable.kind(), ErrorKind::ColumnNotFound);
    assert_eq!(
        PlanError::PushdownAcrossAggregationUnsupported.kind(),
        ErrorKind::PushdownAcrossAggregationUnsupported
    );
}

#[test]
fn errors_say_what_went_wrong() {
    assert_eq!(PlanError::NoLinearJoinOrder.to_string(), "no linear join order");
    assert_eq!(PlanError::ColumnNotFound.to_string(), "column not found");
}

#[test]
fn default_metadata_holds_the_three_sample_tables() {
    let meta = Metadata::from_default();
    assert_eq!(meta.path, "drivers/sample_queries/data/");
    assert_eq!(meta.buffsize, 1048576);
    assert_eq!(meta.tables.len(), 3);
    assert_eq!(meta.tables[0].name, "LINEITEM");
    assert_eq!(meta.tables[0].file, "lineitem.tbl.bz2");
    assert_eq!(meta.tables[0].filetype, "text");
    assert_eq!(
        meta.tables[0].schema.columns,
        vec![
            ("OKEY".to_string(), MetaType::LONG),
            ("PKEY".to_string(), MetaType::LONG),
            ("PRICE".to_string(), MetaType::DEC)
        ]
    );
    assert_eq!(meta.tables[1].name, "ORDERS");
    assert_eq!(meta.tables[1].file, "order.tbl.bz2");
    assert_eq!(
        meta.tables[1].schema.columns,
        vec![("OKEY".to_string(), MetaType::LONG), ("ZIP".to_string(), MetaType::LONG)]
    );
    assert_eq!(meta.tables[2].name, "PART");
    assert_eq!(meta.tables[2].file, "part.tbl");
    assert_eq!(
        meta.tables[2].schema.columns,
        vec![("PKEY".to_string(), MetaType::LONG), ("COST".to_string(), MetaType::DEC)]
    );
}

#[test]
fn scalar_types_have_configuration_names() {
    assert_eq!(MetaType::LONG.preflight_str(), "long");
    assert_eq!(MetaType::DEC.preflight_str(), "dec");
}
