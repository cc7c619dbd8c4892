use rpsql_planner::ops::ColRef;
use rpsql_planner::planner::EqualityFactSet;

fn col(table: &str, column: &str) -> ColRef {
    ColRef::TableRef { table: table.to_string(), column: column.to_string() }
}

#[test]
fn a_new_fact_set_knows_no_equality() {
    let facts = EqualityFactSet::new();
    assert!(!facts.are_equal(&col("A", "x"), &col("B", "x")));
    assert!(!facts.are_equal(&col("A", "x"), &col("A", "x")));
}

#[test]
fn a_rule_makes_its_two_columns_equal_in_both_directions() {
    let mut facts = EqualityFactSet::new();
    facts.insert_rule(&col("A", "x"), &col("B", "x"));
    assert!(facts.are_equal(&col("A", "x"), &col("B", "x")));
    assert!(facts.are_equal(&col("B", "x"), &col("A", "x")));
    assert!(facts.are_equal(&col("A", "x"), &col("A", "x")));
    assert!(!facts.are_equal(&col("A", "x"), &col("C", "x")));
}

#[test]
fn a_rule_extends_the_class_of_a_known_column() {
    let mut facts = EqualityFactSet::new();
    facts.insert_rule(&col("A", "x"), &col("B", "x"));
    facts.insert_rule(&col("C", "x"), &col("A", "x"));
    assert!(facts.are_equal(&col("C", "x"), &col("B", "x")));
    facts.insert_rule(&col("B", "x"), &col("D", "x"));
    assert!(facts.are_equal(&col("D", "x"), &col("C", "x")));
}

#[test]
fn equality_is_transitive_along_a_join_chain() {
    let mut facts = EqualityFactSet::new();
    facts.insert_rule(&col("A", "x"), &col("B", "x"));
    facts.insert_rule(&col("B", "x"), &col("C", "x"));
    assert!(facts.are_equal(&col("A", "x"), &col("C", "x")));
    assert!(!facts.are_equal(&col("A", "x"), &col("D", "x")));
}

#[test]
fn a_rule_merges_two_classes() {
    let mut facts = EqualityFactSet::new();
    facts.insert_rule(&col("A", "x"), &col("B", "x"));
    facts.insert_rule(&col("C", "y"), &col("D", "y"));
    assert!(!facts.are_equal(&col("A", "x"), &col("D", "y")));
    facts.insert_rule(&col("B", "x"), &col("C", "y"));
    assert!(facts.are_equal(&col("A", "x"), &col("D", "y")));
    assert!(facts.are_equal(&col("D", "y"), &col("B", "x")));
}

#[test]
fn a_rule_merges_a_later_class_into_an_earlier_one_and_back() {
    let mut facts = EqualityFactSet::new();
    facts.insert_rule(&col("A", "x"), &col("B", "x"));
    facts.insert_rule(&col("C", "y"), &col("D", "y"));
    facts.insert_rule(&col("E", "z"), &col("F", "z"));
    // the first column lies in the last class, the second in the first
    facts.insert_rule(&col("F", "z"), &col("A", "x"));
    assert!(facts.are_equal(&col("E", "z"), &col("B", "x")));
    assert!(facts.are_equal(&col("C", "y"), &col("D", "y")));
    assert!(!facts.are_equal(&col("C", "y"), &col("A", "x")));
    assert!(!facts.are_equal(&col("D", "y"), &col("E", "z")));
}

#[test]
fn a_rule_between_columns_of_one_class_changes_nothing() {
    let mut facts = EqualityFactSet::new();
    facts.insert_rule(&col("A", "x"), &col("B", "x"));
    facts.insert_rule(&col("B", "x"), &col("A", "x"));
    assert!(facts.are_equal(&col("A", "x"), &col("B", "x")));
    assert!(!facts.are_equal(&col("A", "x"), &col("C", "x")));
}

#[test]
fn a_rule_of_a_column_with_itself_makes_it_known() {
    let mut facts = EqualityFactSet::new();
    facts.insert_rule(&col("A", "x"), &col("A", "x"));
    assert!(facts.are_equal(&col("A", "x"), &col("A", "x")));
    assert!(!facts.are_equal(&col("A", "x"), &col("B", "x")));
}

#[test]
fn the_known_equalities_are_the_classes_that_the_rules_connect() {
    let mut state: u64 = 99;
    let mut next = |bound: u64| {
        state = state.wrapping_mul(6364136223846793005).wrapping_add(1442695040888963407);
        (state >> 33) % bound
    };
    let name = |i: usize| col("T", &format!("c{}", i));
    for _ in 0..200 {
        let size = 6;
        let mut facts = EqualityFactSet::new();
        // the class of each column, or none while no rule has named it
        let mut class: Vec<Option<usize>> = vec![None; size];
        for rule in 0..next(8) as usize {
            let a = next(size as u64) as usize;
            let b = next(size as u64) as usize;
            facts.insert_rule(&name(a), &name(b));
            let target = class[a].unwrap_or(size + rule);
            let merged = class[b];
            for c in class.iter_mut() {
                if merged.is_some() && *c == merged {
                    *c = Some(target);
                }
            }
            class[a] = Some(target);
            class[b] = Some(target);
        }
        for x in 0..size {
            for y in 0..size {
                let expected = class[x].is_some() && class[x] == class[y];
                assert_eq!(facts.are_equal(&name(x), &name(y)), expected, "{} {}", x, y);
            }
        }
    }
}
