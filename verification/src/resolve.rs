use vstd::prelude::*;
use crate::error::PlanError;
use crate::ops::{
    ColRef, ColSpec, NodeSpec, Op, OpAggGroup, OpFilter, OpJoin, OpProjection, OpScan, OpSortLimit,
    OpSubqueryProj, PlanSpec,
};
use crate::schema::{clone_cols, cols_contain, cols_model, LocalSchema};
use crate::selection::outcome_model;

verus! {

/// The physical columns `ls` satisfy the request `target`: as the same sequence
/// where the order matters, as the same set where it does not.
pub open spec fn schema_matches(ls: Seq<ColSpec>, target: Seq<ColSpec>, force_order: bool) -> bool {
    if force_order {
        ls == target
    } else {
        ls.to_set() == target.to_set()
    }
}

/// An explicit projection of `op` to exactly `target`.
pub open spec fn projection_over(op: PlanSpec, target: Seq<ColSpec>) -> PlanSpec {
    PlanSpec {
        node: NodeSpec::Projection { input: Box::new(op), projection: target },
        ls: Some(target),
        vs: op.vs,
        cfg_name: None,
    }
}

/// `op` itself where its local schema satisfies the request, else a projection of it.
pub open spec fn spec_coerce(op: PlanSpec, target: Seq<ColSpec>, force_order: bool) -> PlanSpec {
    if op.ls is Some && schema_matches(op.ls.unwrap(), target, force_order) {
        op
    } else {
        projection_over(op, target)
    }
}

/// Every column of `target` is one of `vs`.
pub open spec fn reachable(vs: Seq<ColSpec>, target: Seq<ColSpec>) -> bool {
    forall|i: int| 0 <= i < target.len() ==> vs.contains(#[trigger] target[i])
}

/// Holds of every column but `a` and `b`.
pub open spec fn is_neither(a: ColSpec, b: ColSpec) -> spec_fn(ColSpec) -> bool {
    |c: ColSpec| c != a && c != b
}

/// Holds of the columns of `vs`.
pub open spec fn is_among(vs: Seq<ColSpec>) -> spec_fn(ColSpec) -> bool {
    |c: ColSpec| vs.contains(c)
}

/// Holds of the columns that `vs` lacks.
pub open spec fn is_outside(vs: Seq<ColSpec>) -> spec_fn(ColSpec) -> bool {
    |c: ColSpec| !vs.contains(c)
}

/// What a join needs from its inputs: both join attributes first, the build
/// attribute before the probe attribute, then the rest of `target`.
pub open spec fn join_requirements(target: Seq<ColSpec>, build_attr: ColSpec, probe_attr: ColSpec) -> Seq<
    ColSpec,
> {
    seq![build_attr, probe_attr] + target.filter(is_neither(build_attr, probe_attr))
}

/// What a filter needs from its input: `target`, and its own field.
pub open spec fn filter_requirements(target: Seq<ColSpec>, field: ColSpec) -> Seq<ColSpec> {
    if target.contains(field) {
        target
    } else {
        target.push(field)
    }
}

/// The operator tree with a local schema assigned to every node such that the
/// root supplies `target`, and with an explicit projection wherever a node's own
/// columns do not satisfy what is asked of it.
pub open spec fn spec_local_project(op: PlanSpec, target: Seq<ColSpec>, force_order: bool) -> Result<
    PlanSpec,
    PlanError,
>
    decreases op,
{
    if !reachable(op.vs, target) {
        Err(PlanError::ColumnNotFound)
    } else {
        match op.node {
            NodeSpec::Scan { .. } => Ok(
                spec_coerce(PlanSpec { ls: Some(op.vs), ..op }, target, force_order),
            ),
            NodeSpec::Join { build, build_attr, probe, probe_attr } => {
                let reqs = join_requirements(target, build_attr, probe_attr);
                match spec_local_project(*build, reqs.filter(is_among(build.vs)), true) {
                    Ok(b) => match spec_local_project(
                        *probe,
                        reqs.filter(is_outside(build.vs)),
                        false,
                    ) {
                        Ok(p) => Ok(
                            PlanSpec {
                                node: NodeSpec::Join {
                                    build: Box::new(b),
                                    build_attr,
                                    probe: Box::new(p),
                                    probe_attr,
                                },
                                ls: Some(target),
                                ..op
                            },
                        ),
                        Err(e) => Err(e),
                    },
                    Err(e) => Err(e),
                }
            },
            NodeSpec::Filter { input, op: sym, field, value } => match spec_local_project(
                *input,
                filter_requirements(target, field),
                false,
            ) {
                Ok(i) => Ok(
                    spec_coerce(
                        PlanSpec {
                            node: NodeSpec::Filter { input: Box::new(i), op: sym, field, value },
                            ls: i.ls,
                            ..op
                        },
                        target,
                        force_order,
                    ),
                ),
                Err(e) => Err(e),
            },
            NodeSpec::Projection { input, .. } => match spec_local_project(*input, target, false) {
                Ok(i) => Ok(spec_coerce(i, target, force_order)),
                Err(e) => Err(e),
            },
            NodeSpec::AggGroup { input, grouping, agg_field } => match agg_field {
                ColSpec::Aggregate { source, .. } => match spec_local_project(
                    *input,
                    grouping.push(*source),
                    true,
                ) {
                    Ok(i) => Ok(
                        spec_coerce(
                            PlanSpec {
                                node: NodeSpec::AggGroup { input: Box::new(i), grouping, agg_field },
                                ls: Some(grouping.push(agg_field)),
                                ..op
                            },
                            target,
                            force_order,
                        ),
                    ),
                    Err(e) => Err(e),
                },
                ColSpec::Table { .. } => Err(PlanError::MissingOrExtraAggregate),
            },
            NodeSpec::SortLimit { input, order_columns, order, limit } => match spec_local_project(
                *input,
                order_columns + target,
                false,
            ) {
                Ok(i) => Ok(
                    spec_coerce(
                        PlanSpec {
                            node: NodeSpec::SortLimit {
                                input: Box::new(i),
                                order_columns,
                                order,
                                limit,
                            },
                            ls: i.ls,
                            ..op
                        },
                        target,
                        force_order,
                    ),
                ),
                Err(e) => Err(e),
            },
            NodeSpec::SubqueryProj { input } => match spec_local_project(*input, target, false) {
                Ok(i) => Ok(
                    spec_coerce(
                        PlanSpec {
                            node: NodeSpec::SubqueryProj { input: Box::new(i) },
                            ls: i.ls,
                            ..op
                        },
                        target,
                        force_order,
                    ),
                ),
                Err(e) => Err(e),
            },
        }
    }
}

/// What schema resolution returns has a local schema that satisfies the request.
pub proof fn lemma_local_project_schema(op: PlanSpec, target: Seq<ColSpec>, force_order: bool)
    requires
        spec_local_project(op, target, force_order) is Ok,
    ensures
        spec_local_project(op, target, force_order).unwrap().ls is Some,
        schema_matches(
            spec_local_project(op, target, force_order).unwrap().ls.unwrap(),
            target,
            force_order,
        ),
    decreases op,
{
    match op.node {
        NodeSpec::Scan { .. } => {},
        NodeSpec::Join { .. } => {},
        NodeSpec::Filter { input, field, .. } => {
            lemma_local_project_schema(*input, filter_requirements(target, field), false);
        },
        NodeSpec::Projection { input, .. } => {
            lemma_local_project_schema(*input, target, false);
        },
        NodeSpec::AggGroup { .. } => {},
        NodeSpec::SortLimit { input, order_columns, .. } => {
            lemma_local_project_schema(*input, order_columns + target, false);
        },
        NodeSpec::SubqueryProj { input } => {
            lemma_local_project_schema(*input, target, false);
        },
    }
}

/// No join attribute is within reach of the other side of its join, and every
/// aggregation exposes its grouping columns followed by its aggregate.
pub open spec fn well_placed(op: PlanSpec) -> bool
    decreases op,
{
    match op.node {
        NodeSpec::Scan { .. } => true,
        NodeSpec::Join { build, build_attr, probe, probe_attr } => {
            &&& !probe.vs.contains(build_attr)
            &&& !build.vs.contains(probe_attr)
            &&& well_placed(*build)
            &&& well_placed(*probe)
        },
        NodeSpec::Filter { input, .. } => well_placed(*input),
        NodeSpec::Projection { input, .. } => well_placed(*input),
        NodeSpec::AggGroup { input, grouping, agg_field } => {
            &&& op.vs == grouping.push(agg_field)
            &&& well_placed(*input)
        },
        NodeSpec::SortLimit { input, .. } => well_placed(*input),
        NodeSpec::SubqueryProj { input } => well_placed(*input),
    }
}

/// Every node has a local schema, and every column that a node refers to is
/// found in the local schema of the input that must supply it.
pub open spec fn resolved(op: PlanSpec) -> bool
    decreases op,
{
    &&& op.ls is Some
    &&& match op.node {
        NodeSpec::Scan { .. } => op.ls == Some(op.vs),
        NodeSpec::Join { build, build_attr, probe, probe_attr } => {
            &&& resolved(*build)
            &&& resolved(*probe)
            &&& build.ls.unwrap().contains(build_attr)
            &&& probe.ls.unwrap().contains(probe_attr)
            &&& forall|i: int|
                0 <= i < op.ls.unwrap().len() ==> build.ls.unwrap().contains(
                    #[trigger] op.ls.unwrap()[i],
                ) || probe.ls.unwrap().contains(op.ls.unwrap()[i])
        },
        NodeSpec::Filter { input, field, .. } => {
            &&& resolved(*input)
            &&& op.ls == input.ls
            &&& input.ls.unwrap().contains(field)
        },
        NodeSpec::Projection { input, projection } => {
            &&& resolved(*input)
            &&& op.ls == Some(projection)
            &&& reachable(input.ls.unwrap(), projection)
        },
        NodeSpec::AggGroup { input, grouping, agg_field } => {
            &&& resolved(*input)
            &&& op.ls == Some(grouping.push(agg_field))
            &&& reachable(input.ls.unwrap(), grouping)
            &&& agg_field matches ColSpec::Aggregate { source, .. } && input.ls.unwrap().contains(
                *source,
            )
        },
        NodeSpec::SortLimit { input, order_columns, .. } => {
            &&& resolved(*input)
            &&& op.ls == input.ls
            &&& reachable(input.ls.unwrap(), order_columns)
        },
        NodeSpec::SubqueryProj { input } => {
            &&& resolved(*input)
            &&& op.ls == input.ls
        },
    }
}

/// No projection of the tree is redundant: none puts out the very columns, in
/// the very order, that its input puts out.
pub open spec fn projections_needed(op: PlanSpec) -> bool
    decreases op,
{
    match op.node {
        NodeSpec::Scan { .. } => true,
        NodeSpec::Join { build, probe, .. } => projections_needed(*build) && projections_needed(
            *probe,
        ),
        NodeSpec::Filter { input, .. } => projections_needed(*input),
        NodeSpec::Projection { input, projection } => input.ls != Some(projection)
            && projections_needed(*input),
        NodeSpec::AggGroup { input, .. } => projections_needed(*input),
        NodeSpec::SortLimit { input, .. } => projections_needed(*input),
        NodeSpec::SubqueryProj { input } => projections_needed(*input),
    }
}

/// Columns that satisfy a request in some order or in the very order hold
/// every column of the request.
proof fn lemma_match_reaches(ls: Seq<ColSpec>, target: Seq<ColSpec>, force_order: bool)
    requires
        schema_matches(ls, target, force_order),
    ensures
        reachable(ls, target),
        reachable(target, ls),
{
    assert forall|i: int| 0 <= i < target.len() implies ls.contains(#[trigger] target[i]) by {
        assert(target.to_set().contains(target[i]));
        assert(ls.to_set().contains(target[i]));
    }
    assert forall|i: int| 0 <= i < ls.len() implies target.contains(#[trigger] ls[i]) by {
        assert(ls.to_set().contains(ls[i]));
        assert(target.to_set().contains(ls[i]));
    }
}

/// Where a resolved node puts out every column of a request, so does what
/// coercion makes of it, and that is resolved too.
proof fn lemma_coerce_resolved(op: PlanSpec, target: Seq<ColSpec>, force_order: bool)
    requires
        resolved(op),
        reachable(op.ls.unwrap(), target),
    ensures
        resolved(spec_coerce(op, target, force_order)),
{
}

/// Coercion adds a projection only where one is needed.
proof fn lemma_coerce_needed(op: PlanSpec, target: Seq<ColSpec>, force_order: bool)
    requires
        projections_needed(op),
        op.ls is Some,
    ensures
        projections_needed(spec_coerce(op, target, force_order)),
{
    if !schema_matches(op.ls.unwrap(), target, force_order) {
        assert(op.ls.unwrap() != target);
    }
}

/// Schema resolution leaves no node without a local schema and no column
/// unresolved: in what it returns for a well-placed tree, every column that a
/// node refers to is found in the local schema of the input that supplies it.
/// A tree that is not well placed may come back with a join attribute that the
/// side it belongs to does not put out.
pub proof fn lemma_local_project_resolved(op: PlanSpec, target: Seq<ColSpec>, force_order: bool)
    requires
        well_placed(op),
        spec_local_project(op, target, force_order) is Ok,
    ensures
        resolved(spec_local_project(op, target, force_order).unwrap()),
    decreases op,
{
    match op.node {
        NodeSpec::Scan { .. } => {
            lemma_coerce_resolved(PlanSpec { ls: Some(op.vs), ..op }, target, force_order);
        },
        NodeSpec::Join { build, build_attr, probe, probe_attr } => {
            let rest = target.filter(is_neither(build_attr, probe_attr));
            let reqs = join_requirements(target, build_attr, probe_attr);
            let buildreqs = reqs.filter(is_among(build.vs));
            let probereqs = reqs.filter(is_outside(build.vs));
            lemma_local_project_resolved(*build, buildreqs, true);
            lemma_local_project_resolved(*probe, probereqs, false);
            lemma_local_project_schema(*build, buildreqs, true);
            lemma_local_project_schema(*probe, probereqs, false);
            let b = spec_local_project(*build, buildreqs, true).unwrap();
            let p = spec_local_project(*probe, probereqs, false).unwrap();
            lemma_match_reaches(p.ls.unwrap(), probereqs, false);
            assert(reqs[0] == build_attr);
            assert(reqs[1] == probe_attr);
            if !build.vs.contains(build_attr) {
                // the probe side would have been asked for it, and cannot reach it
                reqs.lemma_filter_contains(is_outside(build.vs), 0);
                let m = choose|m: int| 0 <= m < probereqs.len() && probereqs[m] == build_attr;
                assert(probe.vs.contains(probereqs[m]));
            }
            reqs.lemma_filter_contains(is_among(build.vs), 0);
            reqs.lemma_filter_contains(is_outside(build.vs), 1);
            assert(probereqs.contains(probe_attr));
            let k = choose|k: int| 0 <= k < probereqs.len() && probereqs[k] == probe_attr;
            assert(p.ls.unwrap().contains(probereqs[k]));
            assert forall|i: int| 0 <= i < target.len() implies b.ls.unwrap().contains(
                #[trigger] target[i],
            ) || p.ls.unwrap().contains(target[i]) by {
                let c = target[i];
                if c == build_attr {
                } else if c == probe_attr {
                } else {
                    target.lemma_filter_contains(is_neither(build_attr, probe_attr), i);
                    let m = choose|m: int| 0 <= m < rest.len() && rest[m] == c;
                    assert(reqs[m + 2] == c);
                    if build.vs.contains(c) {
                        reqs.lemma_filter_contains(is_among(build.vs), m + 2);
                    } else {
                        reqs.lemma_filter_contains(is_outside(build.vs), m + 2);
                        let n = choose|n: int| 0 <= n < probereqs.len() && probereqs[n] == c;
                        assert(p.ls.unwrap().contains(probereqs[n]));
                    }
                }
            }
        },
        NodeSpec::Filter { input, field, .. } => {
            let reqs = filter_requirements(target, field);
            lemma_local_project_resolved(*input, reqs, false);
            lemma_local_project_schema(*input, reqs, false);
            let i = spec_local_project(*input, reqs, false).unwrap();
            lemma_match_reaches(i.ls.unwrap(), reqs, false);
            lemma_requirements_hold(target, field);
            lemma_reach_through(i.ls.unwrap(), reqs, target);
            let k = choose|k: int| 0 <= k < reqs.len() && reqs[k] == field;
            assert(i.ls.unwrap().contains(reqs[k]));
            lemma_coerce_resolved(
                PlanSpec {
                    node: NodeSpec::Filter {
                        input: Box::new(i),
                        op: op.node->Filter_op,
                        field,
                        value: op.node->value,
                    },
                    ls: i.ls,
                    ..op
                },
                target,
                force_order,
            );
        },
        NodeSpec::Projection { input, .. } => {
            lemma_local_project_resolved(*input, target, false);
            lemma_local_project_schema(*input, target, false);
            let i = spec_local_project(*input, target, false).unwrap();
            lemma_match_reaches(i.ls.unwrap(), target, false);
            lemma_coerce_resolved(i, target, force_order);
        },
        NodeSpec::AggGroup { input, grouping, agg_field } => {
            let source = *agg_field->source;
            let reqs = grouping.push(source);
            lemma_local_project_resolved(*input, reqs, true);
            lemma_local_project_schema(*input, reqs, true);
            let i = spec_local_project(*input, reqs, true).unwrap();
            assert(i.ls.unwrap() == reqs);
            assert(reqs[grouping.len() as int] == source);
            assert forall|k: int| 0 <= k < grouping.len() implies reqs.contains(
                #[trigger] grouping[k],
            ) by {
                assert(reqs[k] == grouping[k]);
            }
            lemma_coerce_resolved(
                PlanSpec {
                    node: NodeSpec::AggGroup { input: Box::new(i), grouping, agg_field },
                    ls: Some(grouping.push(agg_field)),
                    ..op
                },
                target,
                force_order,
            );
        },
        NodeSpec::SortLimit { input, order_columns, order, limit } => {
            let reqs = order_columns + target;
            lemma_local_project_resolved(*input, reqs, false);
            lemma_local_project_schema(*input, reqs, false);
            let i = spec_local_project(*input, reqs, false).unwrap();
            lemma_match_reaches(i.ls.unwrap(), reqs, false);
            assert forall|k: int| 0 <= k < order_columns.len() implies i.ls.unwrap().contains(
                #[trigger] order_columns[k],
            ) by {
                assert(reqs[k] == order_columns[k]);
                assert(i.ls.unwrap().contains(reqs[k]));
            }
            assert forall|k: int| 0 <= k < target.len() implies i.ls.unwrap().contains(
                #[trigger] target[k],
            ) by {
                assert(reqs[order_columns.len() + k] == target[k]);
                assert(i.ls.unwrap().contains(reqs[order_columns.len() + k]));
            }
            lemma_coerce_resolved(
                PlanSpec {
                    node: NodeSpec::SortLimit { input: Box::new(i), order_columns, order, limit },
                    ls: i.ls,
                    ..op
                },
                target,
                force_order,
            );
        },
        NodeSpec::SubqueryProj { input } => {
            lemma_local_project_resolved(*input, target, false);
            lemma_local_project_schema(*input, target, false);
            let i = spec_local_project(*input, target, false).unwrap();
            lemma_match_reaches(i.ls.unwrap(), target, false);
            lemma_coerce_resolved(
                PlanSpec { node: NodeSpec::SubqueryProj { input: Box::new(i) }, ls: i.ls, ..op },
                target,
                force_order,
            );
        },
    }
}

/// What a filter needs holds its field and all that is asked of the filter.
proof fn lemma_requirements_hold(target: Seq<ColSpec>, field: ColSpec)
    ensures
        filter_requirements(target, field).contains(field),
        reachable(filter_requirements(target, field), target),
{
    let reqs = filter_requirements(target, field);
    if !target.contains(field) {
        assert(reqs[target.len() as int] == field);
    }
    assert forall|i: int| 0 <= i < target.len() implies reqs.contains(#[trigger] target[i]) by {
        assert(reqs[i] == target[i]);
    }
}

/// Reachability passes on: what holds all of `mid`, which holds all of
/// `target`, holds all of `target`.
proof fn lemma_reach_through(ls: Seq<ColSpec>, mid: Seq<ColSpec>, target: Seq<ColSpec>)
    requires
        reachable(ls, mid),
        reachable(mid, target),
    ensures
        reachable(ls, target),
{
    assert forall|i: int| 0 <= i < target.len() implies ls.contains(#[trigger] target[i]) by {
        let k = choose|k: int| 0 <= k < mid.len() && mid[k] == target[i];
        assert(ls.contains(mid[k]));
    }
}

/// Schema resolution inserts no redundant projection: it leaves a projection
/// only where the columns below it differ from those it is to put out.
pub proof fn lemma_local_project_needed(op: PlanSpec, target: Seq<ColSpec>, force_order: bool)
    requires
        spec_local_project(op, target, force_order) is Ok,
    ensures
        projections_needed(spec_local_project(op, target, force_order).unwrap()),
    decreases op,
{
    match op.node {
        NodeSpec::Scan { .. } => {
            lemma_coerce_needed(PlanSpec { ls: Some(op.vs), ..op }, target, force_order);
        },
        NodeSpec::Join { build, build_attr, probe, probe_attr } => {
            let reqs = join_requirements(target, build_attr, probe_attr);
            lemma_local_project_needed(*build, reqs.filter(is_among(build.vs)), true);
            lemma_local_project_needed(*probe, reqs.filter(is_outside(build.vs)), false);
        },
        NodeSpec::Filter { input, field, .. } => {
            let reqs = filter_requirements(target, field);
            lemma_local_project_needed(*input, reqs, false);
            lemma_local_project_schema(*input, reqs, false);
            let i = spec_local_project(*input, reqs, false).unwrap();
            lemma_coerce_needed(
                PlanSpec {
                    node: NodeSpec::Filter {
                        input: Box::new(i),
                        op: op.node->Filter_op,
                        field,
                        value: op.node->value,
                    },
                    ls: i.ls,
                    ..op
                },
                target,
                force_order,
            );
        },
        NodeSpec::Projection { input, .. } => {
            lemma_local_project_needed(*input, target, false);
            lemma_local_project_schema(*input, target, false);
            lemma_coerce_needed(
                spec_local_project(*input, target, false).unwrap(),
                target,
                force_order,
            );
        },
        NodeSpec::AggGroup { input, grouping, agg_field } => {
            let reqs = grouping.push(*agg_field->source);
            lemma_local_project_needed(*input, reqs, true);
            let i = spec_local_project(*input, reqs, true).unwrap();
            lemma_coerce_needed(
                PlanSpec {
                    node: NodeSpec::AggGroup { input: Box::new(i), grouping, agg_field },
                    ls: Some(grouping.push(agg_field)),
                    ..op
                },
                target,
                force_order,
            );
        },
        NodeSpec::SortLimit { input, order_columns, order, limit } => {
            let reqs = order_columns + target;
            lemma_local_project_needed(*input, reqs, false);
            lemma_local_project_schema(*input, reqs, false);
            let i = spec_local_project(*input, reqs, false).unwrap();
            lemma_coerce_needed(
                PlanSpec {
                    node: NodeSpec::SortLimit { input: Box::new(i), order_columns, order, limit },
                    ls: i.ls,
                    ..op
                },
                target,
                force_order,
            );
        },
        NodeSpec::SubqueryProj { input } => {
            lemma_local_project_needed(*input, target, false);
            lemma_local_project_schema(*input, target, false);
            let i = spec_local_project(*input, target, false).unwrap();
            lemma_coerce_needed(
                PlanSpec { node: NodeSpec::SubqueryProj { input: Box::new(i) }, ls: i.ls, ..op },
                target,
                force_order,
            );
        },
    }
}

/// Where the columns of a node already satisfy the request, coercion returns
/// the node itself: as the same set when the order is free, as the same
/// sequence when it is forced.
pub proof fn lemma_coerce_skips(op: PlanSpec, target: Seq<ColSpec>, force_order: bool)
    requires
        op.ls is Some,
        schema_matches(op.ls.unwrap(), target, force_order),
    ensures
        spec_coerce(op, target, force_order) == op,
{
}

/// Whether the two lists hold the same columns in the same order.
pub fn same_columns(a: &[ColRef], b: &[ColRef]) -> (res: bool)
    ensures
        res == (cols_model(a@) == cols_model(b@)),
{
    if a.len() != b.len() {
        assert(cols_model(a@).len() != cols_model(b@).len());
        return false;
    }
    let mut i: usize = 0;
    while i < a.len()
        invariant
            i <= a.len(),
            a.len() == b.len(),
            forall|j: int| 0 <= j < i ==> a[j]@ == b[j]@,
        decreases a.len() - i,
    {
        if !(a[i] == b[i]) {
            assert(cols_model(a@)[i as int] != cols_model(b@)[i as int]);
            return false;
        }
        i += 1;
    }
    assert(cols_model(a@) =~= cols_model(b@));
    true
}

/// Whether every column of `part` is one of `whole`.
pub fn all_reachable(whole: &[ColRef], part: &[ColRef]) -> (res: bool)
    ensures
        res == reachable(cols_model(whole@), cols_model(part@)),
{
    let mut i: usize = 0;
    while i < part.len()
        invariant
            i <= part.len(),
            forall|j: int| 0 <= j < i ==> cols_model(whole@).contains(#[trigger] cols_model(part@)[j]),
        decreases part.len() - i,
    {
        if !cols_contain(whole, &part[i]) {
            assert(!cols_model(whole@).contains(cols_model(part@)[i as int]));
            return false;
        }
        i += 1;
    }
    true
}

/// Whether the two lists hold the same columns, in whatever order and however often.
pub fn same_column_set(a: &[ColRef], b: &[ColRef]) -> (res: bool)
    ensures
        res == (cols_model(a@).to_set() == cols_model(b@).to_set()),
{
    let forth = all_reachable(b, a);
    let back = all_reachable(a, b);
    proof {
        let sa = cols_model(a@);
        let sb = cols_model(b@);
        if forth && back {
            assert forall|c: ColSpec| sa.to_set().contains(c) == sb.to_set().contains(c) by {
                if sa.contains(c) {
                    let i = choose|i: int| 0 <= i < sa.len() && sa[i] == c;
                    assert(sb.contains(sa[i]));
                }
                if sb.contains(c) {
                    let i = choose|i: int| 0 <= i < sb.len() && sb[i] == c;
                    assert(sa.contains(sb[i]));
                }
            }
            assert(sa.to_set() =~= sb.to_set());
        } else if !forth {
            let i = choose|i: int| 0 <= i < sa.len() && !sb.contains(#[trigger] sa[i]);
            assert(sa.to_set().contains(sa[i]));
            assert(!sb.to_set().contains(sa[i]));
        } else {
            let i = choose|i: int| 0 <= i < sb.len() && !sa.contains(#[trigger] sb[i]);
            assert(sb.to_set().contains(sb[i]));
            assert(!sa.to_set().contains(sb[i]));
        }
    }
    forth && back
}

/// Returns `op` unchanged where its local schema already satisfies
/// `target_projection`: as the same sequence when `force_order` is set, as the
/// same set when it is not. Otherwise wraps `op` in a projection to exactly
/// `target_projection`.
pub fn coerce_projection(op: Op, target_projection: &[ColRef], force_order: bool) -> (res: Op)
    requires
        op@.ls is Some,
    ensures
        res@ == spec_coerce(op@, cols_model(target_projection@), force_order),
{
    let op_projection = op.local_schema().unwrap().columns;
    let matches = if force_order {
        same_columns(op_projection.as_slice(), target_projection)
    } else {
        same_column_set(op_projection.as_slice(), target_projection)
    };
    if matches {
        return op;
    }
    let vs = op.virtual_schema();
    Op::ProjectionOp(
        Box::new(
            OpProjection {
                input: op,
                projection: clone_cols(target_projection),
                ls: Some(LocalSchema { columns: clone_cols(target_projection) }),
                vs,
                cfg_name: None,
            },
        ),
    )
}

/// The columns of `cols` other than `a` and `b`, in order.
fn keep_neither(cols: &[ColRef], a: &ColRef, b: &ColRef) -> (res: Vec<ColRef>)
    ensures
        cols_model(res@) == cols_model(cols@).filter(is_neither(a@, b@)),
{
    let ghost all = cols_model(cols@);
    let ghost pred = is_neither(a@, b@);
    let mut res: Vec<ColRef> = Vec::new();
    let mut i: usize = 0;
    proof {
        let none = all.subrange(0, 0);
        none.lemma_filter_len(pred);
        assert(none.filter(pred) =~= Seq::<ColSpec>::empty());
    }
    while i < cols.len()
        invariant
            i <= cols.len(),
            all == cols_model(cols@),
            pred == is_neither(a@, b@),
            cols_model(res@) == all.subrange(0, i as int).filter(pred),
        decreases cols.len() - i,
    {
        let ghost before = cols_model(res@);
        let ghost next = all.subrange(0, i + 1);
        proof {
            assert(next.drop_last() =~= all.subrange(0, i as int));
            assert(next.last() == cols[i as int]@);
            assert(pred(next.last()) == (cols[i as int]@ != a@ && cols[i as int]@ != b@));
            let prev = all.subrange(0, i as int);
            assert(next =~= prev.push(all[i as int]));
            prev.lemma_filter_push(all[i as int], pred);
        }
        if !(cols[i] == *a) && !(cols[i] == *b) {
            res.push(cols[i].clone());
            assert(cols_model(res@) =~= before.push(all[i as int]));
        }
        assert(cols_model(res@) == next.filter(pred));
        i += 1;
    }
    assert(all.subrange(0, i as int) =~= all);
    res
}

/// The columns of `cols` that `vs` holds where `inside` is set, and those that
/// it lacks where `inside` is not set, in order.
fn keep_by_reach(cols: &[ColRef], vs: &[ColRef], inside: bool) -> (res: Vec<ColRef>)
    ensures
        inside ==> cols_model(res@) == cols_model(cols@).filter(is_among(cols_model(vs@))),
        !inside ==> cols_model(res@) == cols_model(cols@).filter(is_outside(cols_model(vs@))),
{
    let ghost all = cols_model(cols@);
    let ghost pred = if inside {
        is_among(cols_model(vs@))
    } else {
        is_outside(cols_model(vs@))
    };
    let mut res: Vec<ColRef> = Vec::new();
    let mut i: usize = 0;
    proof {
        let none = all.subrange(0, 0);
        none.lemma_filter_len(pred);
        assert(none.filter(pred) =~= Seq::<ColSpec>::empty());
    }
    while i < cols.len()
        invariant
            i <= cols.len(),
            all == cols_model(cols@),
            pred == if inside {
                is_among(cols_model(vs@))
            } else {
                is_outside(cols_model(vs@))
            },
            cols_model(res@) == all.subrange(0, i as int).filter(pred),
        decreases cols.len() - i,
    {
        let ghost before = cols_model(res@);
        let ghost next = all.subrange(0, i + 1);
        proof {
            assert(next.drop_last() =~= all.subrange(0, i as int));
            assert(next.last() == cols[i as int]@);
            assert(pred(next.last()) == (cols_model(vs@).contains(cols[i as int]@) == inside));
            let prev = all.subrange(0, i as int);
            assert(next =~= prev.push(all[i as int]));
            prev.lemma_filter_push(all[i as int], pred);
        }
        if cols_contain(vs, &cols[i]) == inside {
            res.push(cols[i].clone());
            assert(cols_model(res@) =~= before.push(all[i as int]));
        }
        assert(cols_model(res@) == next.filter(pred));
        i += 1;
    }
    assert(all.subrange(0, i as int) =~= all);
    res
}

/// Assigns a local schema to every node of the tree, bottom-up, such that the
/// root supplies `target_projection`: in exactly that order when `force_order`
/// is set, as that set of columns when it is not. Projections are inserted only
/// where a node's own columns do not satisfy what is asked of it. Fails with
/// `ColumnNotFound` where a node is asked for a column that it cannot reach.
pub fn local_project(op: Op, target_projection: &[ColRef], force_order: bool) -> (res: Result<
    Op,
    PlanError,
>)
    ensures
        outcome_model(res) == spec_local_project(
            op@,
            cols_model(target_projection@),
            force_order,
        ),
        res matches Ok(r) ==> r@.ls is Some && schema_matches(
            r@.ls.unwrap(),
            cols_model(target_projection@),
            force_order,
        ),
    decreases op,
{
    let ghost target = cols_model(target_projection@);
    proof {
        if spec_local_project(op@, target, force_order) is Ok {
            lemma_local_project_schema(op@, target, force_order);
        }
    }
    let own = op.virtual_schema();
    if !all_reachable(own.columns.as_slice(), target_projection) {
        return Err(PlanError::ColumnNotFound);
    }
    match op {
        Op::ScanOp(scan) => {
            let s = *scan;
            let ls = LocalSchema { columns: clone_cols(s.vs.columns.as_slice()) };
            let resolved = Op::ScanOp(
                Box::new(
                    OpScan {
                        file: s.file,
                        filetype: s.filetype,
                        tab_name: s.tab_name,
                        schema: s.schema,
                        ls: Some(ls),
                        vs: s.vs,
                        cfg_name: s.cfg_name,
                    },
                ),
            );
            Ok(coerce_projection(resolved, target_projection, force_order))
        },
        Op::JoinOp(join) => {
            let j = *join;
            let mut requirements: Vec<ColRef> = Vec::new();
            requirements.push(j.build_join_attribute.clone());
            requirements.push(j.probe_join_attribute.clone());
            let mut rest = keep_neither(
                target_projection,
                &j.build_join_attribute,
                &j.probe_join_attribute,
            );
            let ghost rest_model = cols_model(rest@);
            requirements.append(&mut rest);
            assert(cols_model(requirements@) =~= join_requirements(
                target,
                j.build_join_attribute@,
                j.probe_join_attribute@,
            ));
            let build_vs = j.build.virtual_schema();
            let buildreqs = keep_by_reach(
                requirements.as_slice(),
                build_vs.columns.as_slice(),
                true,
            );
            let probereqs = keep_by_reach(
                requirements.as_slice(),
                build_vs.columns.as_slice(),
                false,
            );
            let build = match local_project(j.build, buildreqs.as_slice(), true) {
                Ok(b) => b,
                Err(e) => {
                    return Err(e);
                },
            };
            let probe = match local_project(j.probe, probereqs.as_slice(), false) {
                Ok(p) => p,
                Err(e) => {
                    return Err(e);
                },
            };
            Ok(
                Op::JoinOp(
                    Box::new(
                        OpJoin {
                            build,
                            build_join_attribute: j.build_join_attribute,
                            probe,
                            probe_join_attribute: j.probe_join_attribute,
                            ls: Some(LocalSchema { columns: clone_cols(target_projection) }),
                            vs: j.vs,
                            cfg_name: j.cfg_name,
                        },
                    ),
                ),
            )
        },
        Op::FilterOp(filter) => {
            let f = *filter;
            let mut requirements = clone_cols(target_projection);
            if !cols_contain(requirements.as_slice(), &f.field) {
                requirements.push(f.field.clone());
                assert(cols_model(requirements@) =~= target.push(f.field@));
            }
            let input = match local_project(f.input, requirements.as_slice(), false) {
                Ok(i) => i,
                Err(e) => {
                    return Err(e);
                },
            };
            let ls = input.local_schema();
            let resolved = Op::FilterOp(
                Box::new(
                    OpFilter {
                        input,
                        op: f.op,
                        field: f.field,
                        value: f.value,
                        ls,
                        vs: f.vs,
                        cfg_name: f.cfg_name,
                    },
                ),
            );
            Ok(coerce_projection(resolved, target_projection, force_order))
        },
        Op::ProjectionOp(projection) => {
            let p = *projection;
            match local_project(p.input, target_projection, false) {
                Ok(input) => Ok(coerce_projection(input, target_projection, force_order)),
                Err(e) => Err(e),
            }
        },
        Op::AggGroupOp(agg_group) => {
            let a = *agg_group;
            let mut requirements = clone_cols(a.grouping.as_slice());
            match &a.agg_field {
                ColRef::AggregateRef { func: _, source } => {
                    requirements.push((**source).clone());
                },
                ColRef::TableRef { .. } => {
                    return Err(PlanError::MissingOrExtraAggregate);
                },
            }
            assert(cols_model(requirements@) =~= cols_model(a.grouping@).push(
                *a.agg_field@->source,
            ));
            let mut ls = clone_cols(a.grouping.as_slice());
            ls.push(a.agg_field.clone());
            assert(cols_model(ls@) =~= cols_model(a.grouping@).push(a.agg_field@));
            let input = match local_project(a.input, requirements.as_slice(), true) {
                Ok(i) => i,
                Err(e) => {
                    return Err(e);
                },
            };
            let resolved = Op::AggGroupOp(
                Box::new(
                    OpAggGroup {
                        input,
                        grouping: a.grouping,
                        agg_field: a.agg_field,
                        ls: Some(LocalSchema { columns: ls }),
                        vs: a.vs,
                        cfg_name: a.cfg_name,
                    },
                ),
            );
            Ok(coerce_projection(resolved, target_projection, force_order))
        },
        Op::SortLimitOp(sort_limit) => {
            let s = *sort_limit;
            let mut requirements = clone_cols(s.order_columns.as_slice());
            let mut wanted = clone_cols(target_projection);
            requirements.append(&mut wanted);
            assert(cols_model(requirements@) =~= cols_model(s.order_columns@) + target);
            let input = match local_project(s.input, requirements.as_slice(), false) {
                Ok(i) => i,
                Err(e) => {
                    return Err(e);
                },
            };
            let ls = input.local_schema();
            let resolved = Op::SortLimitOp(
                Box::new(
                    OpSortLimit {
                        input,
                        order_columns: s.order_columns,
                        order: s.order,
                        limit: s.limit,
                        ls,
                        vs: s.vs,
                        cfg_name: s.cfg_name,
                    },
                ),
            );
            Ok(coerce_projection(resolved, target_projection, force_order))
        },
        Op::SubqueryProjOp(subquery) => {
            let q = *subquery;
            let input = match local_project(q.input, target_projection, false) {
                Ok(i) => i,
                Err(e) => {
                    return Err(e);
                },
            };
            let ls = input.local_schema();
            let resolved = Op::SubqueryProjOp(Box::new(OpSubqueryProj { input, ls, vs: q.vs }));
            Ok(coerce_projection(resolved, target_projection, force_order))
        },
    }
}

} // verus!
