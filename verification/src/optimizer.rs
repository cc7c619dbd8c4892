use vstd::prelude::*;
pub use crate::resolve::{coerce_projection, local_project};
use crate::error::PlanError;
use crate::ops::{
    ColRef, ColSpec, NodeSpec, Op, OpAggGroup, OpFilter, OpJoin, OpProjection, OpSortLimit,
    OpSubqueryProj, PlanSpec,
};
use crate::schema::{opt_schema_model, opt_string_model, LocalSchema, VirtualSchema};
use crate::selection::outcome_model;

verus! {

/// What a filter node holds besides its input.
pub struct FilterSpec {
    pub op: Seq<char>,
    pub field: ColSpec,
    pub value: Seq<char>,
    pub ls: Option<Seq<ColSpec>>,
    pub vs: Seq<ColSpec>,
    pub cfg_name: Option<Seq<char>>,
}

impl FilterSpec {
    /// The filter left in place above `below`, with the schemas it had.
    pub open spec fn kept_above(self, below: PlanSpec) -> PlanSpec {
        PlanSpec {
            node: NodeSpec::Filter {
                input: Box::new(below),
                op: self.op,
                field: self.field,
                value: self.value,
            },
            ls: self.ls,
            vs: self.vs,
            cfg_name: self.cfg_name,
        }
    }

    /// The filter placed on `input`, taking over the schemas of `input`.
    pub open spec fn moved_onto(self, input: PlanSpec) -> PlanSpec {
        PlanSpec {
            node: NodeSpec::Filter {
                input: Box::new(input),
                op: self.op,
                field: self.field,
                value: self.value,
            },
            ls: input.ls,
            vs: input.vs,
            cfg_name: self.cfg_name,
        }
    }
}

/// Where the filter `f` goes once its input has become `below`: onto the side
/// of a join that can supply its column, beneath a projection or a sort/limit,
/// nowhere beneath an aggregation, and else it stays.
pub open spec fn spec_rehome_filter(f: FilterSpec, below: PlanSpec) -> Result<PlanSpec, PlanError> {
    match below.node {
        NodeSpec::Scan { .. } => Ok(f.kept_above(below)),
        NodeSpec::Filter { .. } => Ok(f.kept_above(below)),
        NodeSpec::SubqueryProj { .. } => Ok(f.kept_above(below)),
        NodeSpec::AggGroup { .. } => Err(PlanError::PushdownAcrossAggregationUnsupported),
        NodeSpec::Join { build, build_attr, probe, probe_attr } => {
            if build.vs.contains(f.field) {
                Ok(
                    PlanSpec {
                        node: NodeSpec::Join {
                            build: Box::new(f.moved_onto(*build)),
                            build_attr,
                            probe,
                            probe_attr,
                        },
                        ..below
                    },
                )
            } else if probe.vs.contains(f.field) {
                Ok(
                    PlanSpec {
                        node: NodeSpec::Join {
                            build,
                            build_attr,
                            probe: Box::new(f.moved_onto(*probe)),
                            probe_attr,
                        },
                        ..below
                    },
                )
            } else {
                Ok(f.kept_above(below))
            }
        },
        NodeSpec::Projection { input, projection } => Ok(
            PlanSpec {
                node: NodeSpec::Projection {
                    input: Box::new(f.moved_onto(*input)),
                    projection,
                },
                ..below
            },
        ),
        NodeSpec::SortLimit { input, order_columns, order, limit } => Ok(
            PlanSpec {
                node: NodeSpec::SortLimit {
                    input: Box::new(f.moved_onto(*input)),
                    order_columns,
                    order,
                    limit,
                },
                ..below
            },
        ),
    }
}

/// The operator tree with every filter moved as close to its data source as one
/// step of re-homing takes it, children first.
pub open spec fn spec_pushdown(op: PlanSpec) -> Result<PlanSpec, PlanError>
    decreases op,
{
    match op.node {
        NodeSpec::Scan { .. } => Ok(op),
        NodeSpec::Join { build, build_attr, probe, probe_attr } => match spec_pushdown(*build) {
            Ok(b) => match spec_pushdown(*probe) {
                Ok(p) => Ok(
                    PlanSpec {
                        node: NodeSpec::Join {
                            build: Box::new(b),
                            build_attr,
                            probe: Box::new(p),
                            probe_attr,
                        },
                        ..op
                    },
                ),
                Err(e) => Err(e),
            },
            Err(e) => Err(e),
        },
        NodeSpec::Filter { input, op: sym, field, value } => match spec_pushdown(*input) {
            Ok(below) => spec_rehome_filter(
                FilterSpec { op: sym, field, value, ls: op.ls, vs: op.vs, cfg_name: op.cfg_name },
                below,
            ),
            Err(e) => Err(e),
        },
        NodeSpec::Projection { input, projection } => match spec_pushdown(*input) {
            Ok(below) => Ok(
                PlanSpec { node: NodeSpec::Projection { input: Box::new(below), projection }, ..op },
            ),
            Err(e) => Err(e),
        },
        NodeSpec::AggGroup { input, grouping, agg_field } => match spec_pushdown(*input) {
            Ok(below) => Ok(
                PlanSpec {
                    node: NodeSpec::AggGroup { input: Box::new(below), grouping, agg_field },
                    ..op
                },
            ),
            Err(e) => Err(e),
        },
        NodeSpec::SortLimit { input, order_columns, order, limit } => match spec_pushdown(*input) {
            Ok(below) => Ok(
                PlanSpec {
                    node: NodeSpec::SortLimit {
                        input: Box::new(below),
                        order_columns,
                        order,
                        limit,
                    },
                    ..op
                },
            ),
            Err(e) => Err(e),
        },
        NodeSpec::SubqueryProj { input } => match spec_pushdown(*input) {
            Ok(below) => Ok(
                PlanSpec { node: NodeSpec::SubqueryProj { input: Box::new(below) }, ..op },
            ),
            Err(e) => Err(e),
        },
    }
}

/// Pushdown fails in one way only: at an aggregation below a filter.
pub proof fn lemma_pushdown_error(op: PlanSpec)
    ensures
        spec_pushdown(op) matches Err(e) ==> e == PlanError::PushdownAcrossAggregationUnsupported,
    decreases op,
{
    match op.node {
        NodeSpec::Scan { .. } => {},
        NodeSpec::Join { build, probe, .. } => {
            lemma_pushdown_error(*build);
            lemma_pushdown_error(*probe);
        },
        NodeSpec::Filter { input, .. } => {
            lemma_pushdown_error(*input);
        },
        NodeSpec::Projection { input, .. } => {
            lemma_pushdown_error(*input);
        },
        NodeSpec::AggGroup { input, .. } => {
            lemma_pushdown_error(*input);
        },
        NodeSpec::SortLimit { input, .. } => {
            lemma_pushdown_error(*input);
        },
        NodeSpec::SubqueryProj { input } => {
            lemma_pushdown_error(*input);
        },
    }
}

/// A filter directly above an aggregation is never pushed down: pushdown fails
/// with `PushdownAcrossAggregationUnsupported`, whatever lies below.
pub proof fn lemma_pushdown_refuses_aggregation(f: PlanSpec)
    requires
        f.node is Filter,
        f.node->Filter_input.node is AggGroup,
    ensures
        spec_pushdown(f) == Err::<PlanSpec, PlanError>(
            PlanError::PushdownAcrossAggregationUnsupported,
        ),
{
    lemma_pushdown_error(*f.node->Filter_input);
}

/// A filter above a join goes onto the side that can supply its column: onto
/// the build side where that side's pushed-down subtree exposes the column,
/// else onto the probe side where that one does; the join keeps its
/// attributes, its schemas and its other side.
pub proof fn lemma_pushdown_filter_over_join(f: PlanSpec, b: PlanSpec, p: PlanSpec)
    requires
        f.node is Filter,
        f.node->Filter_input.node is Join,
        spec_pushdown(*f.node->Filter_input.node->build) == Ok::<PlanSpec, PlanError>(b),
        spec_pushdown(*f.node->Filter_input.node->probe) == Ok::<PlanSpec, PlanError>(p),
        b.vs.contains(f.node->field) || p.vs.contains(f.node->field),
    ensures
        spec_pushdown(f) is Ok,
        spec_pushdown(f).unwrap().node is Join,
        spec_pushdown(f).unwrap().node->build_attr == f.node->Filter_input.node->build_attr,
        spec_pushdown(f).unwrap().node->probe_attr == f.node->Filter_input.node->probe_attr,
        spec_pushdown(f).unwrap().ls == f.node->Filter_input.ls,
        spec_pushdown(f).unwrap().vs == f.node->Filter_input.vs,
        b.vs.contains(f.node->field) ==> {
            &&& *spec_pushdown(f).unwrap().node->probe == p
            &&& spec_pushdown(f).unwrap().node->build.node == (NodeSpec::Filter {
                input: Box::new(b),
                op: f.node->Filter_op,
                field: f.node->field,
                value: f.node->value,
            })
        },
        !b.vs.contains(f.node->field) ==> {
            &&& *spec_pushdown(f).unwrap().node->build == b
            &&& spec_pushdown(f).unwrap().node->probe.node == (NodeSpec::Filter {
                input: Box::new(p),
                op: f.node->Filter_op,
                field: f.node->field,
                value: f.node->value,
            })
        },
{
    let j = *f.node->Filter_input;
    assert(spec_pushdown(j) == Ok::<PlanSpec, PlanError>(
        PlanSpec {
            node: NodeSpec::Join {
                build: Box::new(b),
                build_attr: j.node->build_attr,
                probe: Box::new(p),
                probe_attr: j.node->probe_attr,
            },
            ..j
        },
    ));
}

/// What a filter node holds besides its input.
struct FilterParts {
    op: String,
    field: ColRef,
    value: String,
    ls: Option<LocalSchema>,
    vs: VirtualSchema,
    cfg_name: Option<String>,
}

impl View for FilterParts {
    type V = FilterSpec;

    closed spec fn view(&self) -> FilterSpec {
        FilterSpec {
            op: self.op@,
            field: self.field@,
            value: self.value@,
            ls: opt_schema_model(self.ls),
            vs: self.vs@,
            cfg_name: opt_string_model(self.cfg_name),
        }
    }
}

impl FilterParts {
    /// Leaves the filter in place above `below`.
    fn keep_above(self, below: Op) -> (res: Op)
        ensures
            res@ == self@.kept_above(below@),
    {
        Op::FilterOp(
            Box::new(
                OpFilter {
                    input: below,
                    op: self.op,
                    field: self.field,
                    value: self.value,
                    ls: self.ls,
                    vs: self.vs,
                    cfg_name: self.cfg_name,
                },
            ),
        )
    }

    /// Places the filter on `input`.
    fn move_onto(self, input: Op) -> (res: Op)
        ensures
            res@ == self@.moved_onto(input@),
    {
        let ls = input.local_schema();
        let vs = input.virtual_schema();
        Op::FilterOp(
            Box::new(
                OpFilter {
                    input,
                    op: self.op,
                    field: self.field,
                    value: self.value,
                    ls,
                    vs,
                    cfg_name: self.cfg_name,
                },
            ),
        )
    }
}

/// Moves every filter of the tree closer to its data source.
pub fn pushdown_filters(op: Op) -> (res: Result<Op, PlanError>)
    ensures
        outcome_model(res) == spec_pushdown(op@),
    decreases op,
{
    match op {
        Op::ScanOp(op_scan) => Ok(Op::ScanOp(op_scan)),
        Op::JoinOp(op_join) => {
            let j = *op_join;
            let build = match pushdown_filters(j.build) {
                Ok(b) => b,
                Err(e) => {
                    return Err(e);
                },
            };
            let probe = match pushdown_filters(j.probe) {
                Ok(p) => p,
                Err(e) => {
                    return Err(e);
                },
            };
            Ok(
                Op::JoinOp(
                    Box::new(
                        OpJoin {
                            build,
                            build_join_attribute: j.build_join_attribute,
                            probe,
                            probe_join_attribute: j.probe_join_attribute,
                            ls: j.ls,
                            vs: j.vs,
                            cfg_name: j.cfg_name,
                        },
                    ),
                ),
            )
        },
        Op::FilterOp(op_filter) => {
            let f = *op_filter;
            let below = match pushdown_filters(f.input) {
                Ok(b) => b,
                Err(e) => {
                    return Err(e);
                },
            };
            let parts = FilterParts {
                op: f.op,
                field: f.field,
                value: f.value,
                ls: f.ls,
                vs: f.vs,
                cfg_name: f.cfg_name,
            };
            rehome_filter(parts, below)
        },
        Op::ProjectionOp(op_project) => {
            let p = *op_project;
            match pushdown_filters(p.input) {
                Ok(input) => Ok(
                    Op::ProjectionOp(
                        Box::new(
                            OpProjection {
                                input,
                                projection: p.projection,
                                ls: p.ls,
                                vs: p.vs,
                                cfg_name: p.cfg_name,
                            },
                        ),
                    ),
                ),
                Err(e) => Err(e),
            }
        },
        Op::AggGroupOp(op_agg_group) => {
            let a = *op_agg_group;
            match pushdown_filters(a.input) {
                Ok(input) => Ok(
                    Op::AggGroupOp(
                        Box::new(
                            OpAggGroup {
                                input,
                                grouping: a.grouping,
                                agg_field: a.agg_field,
                                ls: a.ls,
                                vs: a.vs,
                                cfg_name: a.cfg_name,
                            },
                        ),
                    ),
                ),
                Err(e) => Err(e),
            }
        },
        Op::SortLimitOp(op_sort_limit) => {
            let s = *op_sort_limit;
            match pushdown_filters(s.input) {
                Ok(input) => Ok(
                    Op::SortLimitOp(
                        Box::new(
                            OpSortLimit {
                                input,
                                order_columns: s.order_columns,
                                order: s.order,
                                limit: s.limit,
                                ls: s.ls,
                                vs: s.vs,
                                cfg_name: s.cfg_name,
                            },
                        ),
                    ),
                ),
                Err(e) => Err(e),
            }
        },
        Op::SubqueryProjOp(op_subquery) => {
            let q = *op_subquery;
            match pushdown_filters(q.input) {
                Ok(input) => Ok(
                    Op::SubqueryProjOp(Box::new(OpSubqueryProj { input, ls: q.ls, vs: q.vs })),
                ),
                Err(e) => Err(e),
            }
        },
    }
}

/// Finds the place of the filter `f` above `below`, its pushed-down input.
fn rehome_filter(f: FilterParts, below: Op) -> (res: Result<Op, PlanError>)
    ensures
        outcome_model(res) == spec_rehome_filter(f@, below@),
{
    match below {
        Op::ScanOp(sub) => Ok(f.keep_above(Op::ScanOp(sub))),
        Op::FilterOp(sub) => Ok(f.keep_above(Op::FilterOp(sub))),
        Op::SubqueryProjOp(sub) => Ok(f.keep_above(Op::SubqueryProjOp(sub))),
        Op::AggGroupOp(_) => Err(PlanError::PushdownAcrossAggregationUnsupported),
        Op::JoinOp(sub) => {
            let j = *sub;
            if j.build.virtual_schema().contains(&f.field) {
                Ok(
                    Op::JoinOp(
                        Box::new(
                            OpJoin {
                                build: f.move_onto(j.build),
                                build_join_attribute: j.build_join_attribute,
                                probe: j.probe,
                                probe_join_attribute: j.probe_join_attribute,
                                ls: j.ls,
                                vs: j.vs,
                                cfg_name: j.cfg_name,
                            },
                        ),
                    ),
                )
            } else if j.probe.virtual_schema().contains(&f.field) {
                Ok(
                    Op::JoinOp(
                        Box::new(
                            OpJoin {
                                build: j.build,
                                build_join_attribute: j.build_join_attribute,
                                probe: f.move_onto(j.probe),
                                probe_join_attribute: j.probe_join_attribute,
                                ls: j.ls,
                                vs: j.vs,
                                cfg_name: j.cfg_name,
                            },
                        ),
                    ),
                )
            } else {
                Ok(f.keep_above(Op::JoinOp(Box::new(j))))
            }
        },
        Op::ProjectionOp(sub) => {
            let p = *sub;
            Ok(
                Op::ProjectionOp(
                    Box::new(
                        OpProjection {
                            input: f.move_onto(p.input),
                            projection: p.projection,
                            ls: p.ls,
                            vs: p.vs,
                            cfg_name: p.cfg_name,
                        },
                    ),
                ),
            )
        },
        Op::SortLimitOp(sub) => {
            let s = *sub;
            Ok(
                Op::SortLimitOp(
                    Box::new(
                        OpSortLimit {
                            input: f.move_onto(s.input),
                            order_columns: s.order_columns,
                            order: s.order,
                            limit: s.limit,
                            ls: s.ls,
                            vs: s.vs,
                            cfg_name: s.cfg_name,
                        },
                    ),
                ),
            )
        },
    }
}

} // verus!
