use vstd::prelude::*;
use crate::conf_value::ConfSpec;
use crate::conf_writer::{
    spec_entry, spec_field_index, spec_field_indices, spec_name_op, spec_node,
    spec_plan_to_json, spec_preflight, spec_source_indices,
};
use crate::metadata::MetadataSpec;
use crate::ops::{ColSpec, NodeSpec, PlanSpec};
use crate::resolve::{reachable, resolved};

verus! {

/// Every local schema of the tree is short enough for its positions to fit in
/// 32 bits, and every aggregation has a grouping column.
pub open spec fn addressable(op: PlanSpec) -> bool
    decreases op,
{
    &&& op.ls matches Some(l) ==> l.len() <= u32::MAX
    &&& match op.node {
        NodeSpec::Scan { .. } => true,
        NodeSpec::Join { build, probe, .. } => addressable(*build) && addressable(*probe),
        NodeSpec::Filter { input, .. } => addressable(*input),
        NodeSpec::Projection { input, .. } => addressable(*input),
        NodeSpec::AggGroup { input, grouping, .. } => grouping.len() > 0 && addressable(*input),
        NodeSpec::SortLimit { input, .. } => addressable(*input),
        NodeSpec::SubqueryProj { input } => addressable(*input),
    }
}

/// A column of a short local schema has a position.
proof fn lemma_field_index_found(l: Seq<ColSpec>, col: ColSpec)
    requires
        l.len() <= u32::MAX,
        l.contains(col),
    ensures
        spec_field_index(Some(l), col) is Ok,
{
    l.index_of_first_ensures(col);
}

/// Columns of a short local schema all have positions.
proof fn lemma_field_indices_found(l: Seq<ColSpec>, cols: Seq<ColSpec>, k: nat)
    requires
        l.len() <= u32::MAX,
        reachable(l, cols),
        k <= cols.len(),
    ensures
        spec_field_indices(Some(l), cols, k) is Ok,
        spec_source_indices(Some(l), cols, k) is Ok,
    decreases k,
{
    if k > 0 {
        lemma_field_indices_found(l, cols, (k - 1) as nat);
        assert(l.contains(cols[k - 1]));
        lemma_field_index_found(l, cols[k - 1]);
    }
}

/// An operator that has been through schema resolution has a configuration entry.
proof fn lemma_entry_written(op: PlanSpec)
    requires
        resolved(op),
        addressable(op),
        !(op.node is SubqueryProj),
    ensures
        spec_entry(op) is Ok,
{
    reveal_with_fuel(resolved, 2);
    reveal_with_fuel(addressable, 2);
    let own = op.ls.unwrap();
    match op.node {
        NodeSpec::Scan { .. } => {},
        NodeSpec::Join { build, build_attr, probe, probe_attr } => {
            lemma_field_index_found(build.ls.unwrap(), build_attr);
            lemma_field_index_found(probe.ls.unwrap(), probe_attr);
        },
        NodeSpec::Filter { field, .. } => {
            lemma_field_index_found(own, field);
        },
        NodeSpec::Projection { input, projection } => {
            lemma_field_indices_found(input.ls.unwrap(), projection, projection.len());
        },
        NodeSpec::AggGroup { grouping, agg_field, .. } => {
            assert(own == grouping.push(agg_field));
            assert(own[grouping.len() as int] == agg_field);
            assert forall|i: int| 0 <= i < grouping.len() implies own.contains(
                #[trigger] grouping[i],
            ) by {
                assert(own[i] == grouping[i]);
            }
            lemma_field_indices_found(own, grouping, grouping.len());
            lemma_field_index_found(own, agg_field);
            lemma_field_index_found(own, grouping[0]);
        },
        NodeSpec::SortLimit { order_columns, .. } => {
            lemma_field_indices_found(own, order_columns, order_columns.len());
        },
        NodeSpec::SubqueryProj { .. } => {},
    }
}

/// A tree that has been through schema resolution has an entry for each of
/// its operators.
proof fn lemma_preflight_written(op: PlanSpec, members: Seq<(Seq<char>, ConfSpec)>)
    requires
        resolved(op),
        addressable(op),
    ensures
        spec_preflight(op, members) is Ok,
    decreases op,
{
    match op.node {
        NodeSpec::Scan { .. } => {
            lemma_entry_written(op);
        },
        NodeSpec::Join { build, probe, .. } => {
            lemma_preflight_written(*build, members);
            lemma_preflight_written(*probe, spec_preflight(*build, members).unwrap());
            lemma_entry_written(op);
        },
        NodeSpec::Filter { input, .. } => {
            lemma_preflight_written(*input, members);
            lemma_entry_written(op);
        },
        NodeSpec::Projection { input, .. } => {
            lemma_preflight_written(*input, members);
            lemma_entry_written(op);
        },
        NodeSpec::AggGroup { input, .. } => {
            lemma_preflight_written(*input, members);
            lemma_entry_written(op);
        },
        NodeSpec::SortLimit { input, .. } => {
            lemma_preflight_written(*input, members);
            lemma_entry_written(op);
        },
        NodeSpec::SubqueryProj { input } => {
            lemma_preflight_written(*input, members);
        },
    }
}

/// Naming the operators changes nothing but names: the tree has passed schema
/// resolution as before.
proof fn lemma_name_op_keeps(op: PlanSpec, uses: Seq<(Seq<char>, u32)>)
    requires
        resolved(op),
        addressable(op),
    ensures
        resolved(spec_name_op(op, uses).0),
        addressable(spec_name_op(op, uses).0),
        spec_name_op(op, uses).0.ls == op.ls,
        spec_name_op(op, uses).0.vs == op.vs,
    decreases op,
{
    match op.node {
        NodeSpec::Scan { .. } => {},
        NodeSpec::Join { build, probe, .. } => {
            lemma_name_op_keeps(*build, uses);
            lemma_name_op_keeps(*probe, spec_name_op(*build, uses).1);
        },
        NodeSpec::Filter { input, .. } => {
            lemma_name_op_keeps(*input, uses);
        },
        NodeSpec::Projection { input, .. } => {
            lemma_name_op_keeps(*input, uses);
        },
        NodeSpec::AggGroup { input, .. } => {
            lemma_name_op_keeps(*input, uses);
        },
        NodeSpec::SortLimit { input, .. } => {
            lemma_name_op_keeps(*input, uses);
        },
        NodeSpec::SubqueryProj { input } => {
            lemma_name_op_keeps(*input, uses);
        },
    }
}

/// A plan that has been through schema resolution can be written: no column
/// is missing where its position is looked up.
pub proof fn lemma_resolved_plan_is_written(plan: PlanSpec, meta: MetadataSpec)
    requires
        resolved(plan),
        addressable(plan),
    ensures
        spec_plan_to_json(plan, meta) is Ok,
{
    lemma_name_op_keeps(plan, Seq::empty());
    let named_plan = spec_name_op(plan, Seq::empty()).0;
    let head = Seq::empty().push(("path"@, ConfSpec::Text(meta.path))).push(
        ("buffsize"@, ConfSpec::Number(meta.buffsize)),
    ).push(("treeroot"@, spec_node(named_plan)));
    lemma_preflight_written(named_plan, head);
}

} // verus!
