use vstd::prelude::*;
use crate::agg_grouping::{spec_group_wrap, AggGroupingSpec};
use crate::error::PlanError;
use crate::equality::implied_relation;
use crate::join_order::{
    first_hamiltonian, is_first_hamiltonian, is_hamiltonian, lemma_walk_distinct,
    lemma_walk_in_range, lemma_walk_len, lemma_walk_step, walk,
};
use crate::metadata::MetadataSpec;
use crate::ops::{ColSpec, NodeSpec, PlanSpec};
use crate::optimizer::{spec_pushdown, spec_rehome_filter, FilterSpec};
use crate::planner::{
    aliases, spec_assemble, spec_edges_upto, spec_from_table, spec_join_facts, spec_join_order,
    spec_namespace_upto, spec_plan, spec_plan_joins, spec_read_query, spec_scan, spec_vertex_of,
    FromSpec,
};
use crate::query::{QuerySpec, SetExprSpec, TableFactorSpec};
use crate::resolve::{
    filter_requirements, is_among, is_neither, is_outside, join_requirements,
    lemma_local_project_needed, lemma_local_project_resolved, lemma_local_project_schema,
    projections_needed, reachable, resolved, spec_local_project, well_placed,
};
use crate::selection::{equijoins_upto, spec_apply_filters, spec_apply_filters_upto, SelSpec};
use crate::sort_limit::{spec_sort_wrap, SortLimitSpec};

verus! {

/// The virtual schemas of the tree fit together: a join exposes the columns of
/// its build side followed by those of its probe side, and neither of its
/// attributes is within reach of the other side; an aggregation exposes its
/// grouping columns followed by its aggregate; every other operator exposes
/// what its input exposes.
pub open spec fn consistent(op: PlanSpec) -> bool
    decreases op,
{
    match op.node {
        NodeSpec::Scan { .. } => true,
        NodeSpec::Join { build, build_attr, probe, probe_attr } => {
            &&& op.vs == build.vs + probe.vs
            &&& !probe.vs.contains(build_attr)
            &&& !build.vs.contains(probe_attr)
            &&& consistent(*build)
            &&& consistent(*probe)
        },
        NodeSpec::Filter { input, .. } => op.vs == input.vs && consistent(*input),
        NodeSpec::Projection { input, .. } => op.vs == input.vs && consistent(*input),
        NodeSpec::AggGroup { input, grouping, agg_field } => op.vs == grouping.push(agg_field)
            && consistent(*input),
        NodeSpec::SortLimit { input, .. } => op.vs == input.vs && consistent(*input),
        NodeSpec::SubqueryProj { input } => op.vs == input.vs && consistent(*input),
    }
}

/// Every column that an operator refers to is within reach of the input that
/// must supply it.
pub open spec fn within_reach(op: PlanSpec) -> bool
    decreases op,
{
    match op.node {
        NodeSpec::Scan { .. } => true,
        NodeSpec::Join { build, build_attr, probe, probe_attr } => {
            &&& build.vs.contains(build_attr)
            &&& probe.vs.contains(probe_attr)
            &&& within_reach(*build)
            &&& within_reach(*probe)
        },
        NodeSpec::Filter { input, field, .. } => input.vs.contains(field) && within_reach(*input),
        NodeSpec::Projection { input, .. } => within_reach(*input),
        NodeSpec::AggGroup { input, grouping, agg_field } => {
            &&& reachable(input.vs, grouping)
            &&& agg_field matches ColSpec::Aggregate { source, .. } && input.vs.contains(*source)
            &&& within_reach(*input)
        },
        NodeSpec::SortLimit { input, order_columns, .. } => reachable(input.vs, order_columns)
            && within_reach(*input),
        NodeSpec::SubqueryProj { input } => within_reach(*input),
    }
}

/// What is kept of a list of columns is part of the list.
proof fn lemma_filter_part(cols: Seq<ColSpec>, pred: spec_fn(ColSpec) -> bool, i: int)
    requires
        0 <= i < cols.filter(pred).len(),
    ensures
        cols.contains(cols.filter(pred)[i]),
        pred(cols.filter(pred)[i]),
{
    let kept = cols.filter(pred);
    assert(kept.contains(kept[i]));
    cols.lemma_filter_contains_rev(pred, kept[i]);
    cols.lemma_filter_pred(pred, i);
}

/// Schema resolution succeeds on every tree whose virtual schemas fit
/// together and whose references are within reach, for every request that the
/// tree can reach.
pub proof fn lemma_local_project_succeeds(op: PlanSpec, target: Seq<ColSpec>, force_order: bool)
    requires
        consistent(op),
        within_reach(op),
        reachable(op.vs, target),
    ensures
        spec_local_project(op, target, force_order) is Ok,
    decreases op,
{
    match op.node {
        NodeSpec::Scan { .. } => {},
        NodeSpec::Join { build, build_attr, probe, probe_attr } => {
            let rest = target.filter(is_neither(build_attr, probe_attr));
            let reqs = join_requirements(target, build_attr, probe_attr);
            let buildreqs = reqs.filter(is_among(build.vs));
            let probereqs = reqs.filter(is_outside(build.vs));
            assert forall|i: int| 0 <= i < reqs.len() implies build.vs.contains(#[trigger] reqs[i])
                || probe.vs.contains(reqs[i]) by {
                if i >= 2 {
                    lemma_filter_part(target, is_neither(build_attr, probe_attr), i - 2);
                    let c = rest[i - 2];
                    let t = choose|t: int| 0 <= t < target.len() && target[t] == c;
                    assert(op.vs.contains(target[t]));
                    let m = choose|m: int| 0 <= m < op.vs.len() && op.vs[m] == c;
                    if m < build.vs.len() {
                        assert(build.vs[m] == c);
                    } else {
                        assert(probe.vs[m - build.vs.len()] == c);
                    }
                }
            }
            assert forall|i: int| 0 <= i < buildreqs.len() implies build.vs.contains(
                #[trigger] buildreqs[i],
            ) by {
                lemma_filter_part(reqs, is_among(build.vs), i);
            }
            assert forall|i: int| 0 <= i < probereqs.len() implies probe.vs.contains(
                #[trigger] probereqs[i],
            ) by {
                lemma_filter_part(reqs, is_outside(build.vs), i);
                let c = probereqs[i];
                let m = choose|m: int| 0 <= m < reqs.len() && reqs[m] == c;
                assert(build.vs.contains(reqs[m]) || probe.vs.contains(reqs[m]));
            }
            lemma_local_project_succeeds(*build, buildreqs, true);
            lemma_local_project_succeeds(*probe, probereqs, false);
        },
        NodeSpec::Filter { input, field, .. } => {
            let reqs = filter_requirements(target, field);
            assert forall|i: int| 0 <= i < reqs.len() implies input.vs.contains(
                #[trigger] reqs[i],
            ) by {
                if i < target.len() {
                    assert(reqs[i] == target[i]);
                }
            }
            lemma_local_project_succeeds(*input, reqs, false);
        },
        NodeSpec::Projection { input, .. } => {
            lemma_local_project_succeeds(*input, target, false);
        },
        NodeSpec::AggGroup { input, grouping, agg_field } => {
            let reqs = grouping.push(*agg_field->source);
            assert forall|i: int| 0 <= i < reqs.len() implies input.vs.contains(
                #[trigger] reqs[i],
            ) by {
                if i < grouping.len() {
                    assert(reqs[i] == grouping[i]);
                }
            }
            lemma_local_project_succeeds(*input, reqs, true);
        },
        NodeSpec::SortLimit { input, order_columns, .. } => {
            let reqs = order_columns + target;
            assert forall|i: int| 0 <= i < reqs.len() implies input.vs.contains(
                #[trigger] reqs[i],
            ) by {
                if i < order_columns.len() {
                    assert(reqs[i] == order_columns[i]);
                } else {
                    assert(reqs[i] == target[i - order_columns.len()]);
                }
            }
            lemma_local_project_succeeds(*input, reqs, false);
        },
        NodeSpec::SubqueryProj { input } => {
            lemma_local_project_succeeds(*input, target, false);
        },
    }
}

/// A tree whose virtual schemas fit together is well placed.
pub proof fn lemma_consistent_placed(op: PlanSpec)
    requires
        consistent(op),
    ensures
        well_placed(op),
    decreases op,
{
    match op.node {
        NodeSpec::Scan { .. } => {},
        NodeSpec::Join { build, probe, .. } => {
            lemma_consistent_placed(*build);
            lemma_consistent_placed(*probe);
        },
        NodeSpec::Filter { input, .. } => {
            lemma_consistent_placed(*input);
        },
        NodeSpec::Projection { input, .. } => {
            lemma_consistent_placed(*input);
        },
        NodeSpec::AggGroup { input, .. } => {
            lemma_consistent_placed(*input);
        },
        NodeSpec::SortLimit { input, .. } => {
            lemma_consistent_placed(*input);
        },
        NodeSpec::SubqueryProj { input } => {
            lemma_consistent_placed(*input);
        },
    }
}

/// Re-homing a filter keeps the virtual schemas fitting together, and the
/// result exposes what the filter's input exposed.
proof fn lemma_rehome_consistent(f: FilterSpec, below: PlanSpec)
    requires
        consistent(below),
        f.vs == below.vs,
        spec_rehome_filter(f, below) is Ok,
    ensures
        consistent(spec_rehome_filter(f, below).unwrap()),
        spec_rehome_filter(f, below).unwrap().vs == below.vs,
{
    reveal_with_fuel(consistent, 3);
}

/// Filter pushdown keeps the virtual schemas fitting together, and changes
/// the columns that the tree exposes in nothing.
pub proof fn lemma_pushdown_consistent(op: PlanSpec)
    requires
        consistent(op),
        spec_pushdown(op) is Ok,
    ensures
        consistent(spec_pushdown(op).unwrap()),
        spec_pushdown(op).unwrap().vs == op.vs,
    decreases op,
{
    match op.node {
        NodeSpec::Scan { .. } => {},
        NodeSpec::Join { build, probe, .. } => {
            lemma_pushdown_consistent(*build);
            lemma_pushdown_consistent(*probe);
        },
        NodeSpec::Filter { input, op: sym, field, value } => {
            lemma_pushdown_consistent(*input);
            lemma_rehome_consistent(
                FilterSpec { op: sym, field, value, ls: op.ls, vs: op.vs, cfg_name: op.cfg_name },
                spec_pushdown(*input).unwrap(),
            );
        },
        NodeSpec::Projection { input, .. } => {
            lemma_pushdown_consistent(*input);
        },
        NodeSpec::AggGroup { input, .. } => {
            lemma_pushdown_consistent(*input);
        },
        NodeSpec::SortLimit { input, .. } => {
            lemma_pushdown_consistent(*input);
        },
        NodeSpec::SubqueryProj { input } => {
            lemma_pushdown_consistent(*input);
        },
    }
}

/// Placing filters keeps the virtual schemas fitting together, and changes
/// the columns that the tree exposes in nothing.
pub proof fn lemma_apply_filters_consistent(
    sel: SelSpec,
    op: PlanSpec,
    known: spec_fn(ColSpec, ColSpec) -> bool,
)
    requires
        consistent(op),
        spec_apply_filters(sel, op, known) is Ok,
    ensures
        consistent(spec_apply_filters(sel, op, known).unwrap()),
        spec_apply_filters(sel, op, known).unwrap().vs == op.vs,
    decreases sel, 0nat,
{
    match sel {
        SelSpec::And(subs) => {
            lemma_apply_filters_upto_consistent(subs, subs.len(), op, known);
        },
        _ => {},
    }
}

proof fn lemma_apply_filters_upto_consistent(
    subs: Seq<SelSpec>,
    k: nat,
    op: PlanSpec,
    known: spec_fn(ColSpec, ColSpec) -> bool,
)
    requires
        consistent(op),
        spec_apply_filters_upto(subs, k, op, known) is Ok,
    ensures
        consistent(spec_apply_filters_upto(subs, k, op, known).unwrap()),
        spec_apply_filters_upto(subs, k, op, known).unwrap().vs == op.vs,
    decreases subs, k,
{
    if k == 0 || k > subs.len() {
    } else {
        lemma_apply_filters_upto_consistent(subs, (k - 1) as nat, op, known);
        let below = spec_apply_filters_upto(subs, (k - 1) as nat, op, known).unwrap();
        lemma_apply_filters_consistent(subs[k - 1], below, known);
    }
}

/// The aggregation and the sort/limit that are placed above a plan keep the
/// virtual schemas fitting together.
pub proof fn lemma_wraps_consistent(grouping: AggGroupingSpec, sort_limit: SortLimitSpec, op: PlanSpec)
    requires
        consistent(op),
    ensures
        consistent(spec_sort_wrap(sort_limit, spec_group_wrap(grouping, op))),
{
    reveal_with_fuel(consistent, 3);
}

/// Binding tables one after the other binds no alias twice.
pub proof fn lemma_namespace_unique(from: Seq<TableFactorSpec>, k: nat)
    requires
        k <= from.len(),
        spec_namespace_upto(from, k) is Ok,
    ensures
        aliases(spec_namespace_upto(from, k).unwrap()).no_duplicates(),
        spec_namespace_upto(from, k).unwrap().len() <= k,
    decreases k,
{
    if k > 0 {
        lemma_namespace_unique(from, (k - 1) as nat);
        let ns = spec_namespace_upto(from, (k - 1) as nat).unwrap();
        let entry = spec_from_table(from[k - 1]).unwrap();
        let names = aliases(ns);
        names.index_of_first_ensures(entry.alias);
        match names.index_of_first(entry.alias) {
            Some(i) => {
                assert(aliases(ns.update(i, entry)) =~= names);
            },
            None => {
                let after = aliases(ns.push(entry));
                assert(after =~= names.push(entry.alias));
                assert forall|a: int, b: int|
                    0 <= a < after.len() && 0 <= b < after.len() && a != b implies after[a]
                    != after[b] by {
                    if a < names.len() && b < names.len() {
                    } else if a < names.len() {
                        assert(names.contains(names[a]));
                    } else {
                        assert(names.contains(names[b]));
                    }
                }
            },
        }
    }
}

/// Each edge of the join graph joins the tables of the two columns of its equality.
proof fn lemma_edges_resolve(ns: Seq<FromSpec>, joins: Seq<(ColSpec, ColSpec)>, k: nat, e: int)
    requires
        0 <= e < k <= joins.len(),
        spec_edges_upto(ns, joins, k) is Ok,
    ensures
        spec_edges_upto(ns, joins, k).unwrap().len() == k,
        spec_vertex_of(ns, joins[e].0) == Ok::<usize, PlanError>(
            spec_edges_upto(ns, joins, k).unwrap()[e].0,
        ),
        spec_vertex_of(ns, joins[e].1) == Ok::<usize, PlanError>(
            spec_edges_upto(ns, joins, k).unwrap()[e].1,
        ),
    decreases k,
{
    lemma_edges_count(ns, joins, k);
    if e < k - 1 {
        lemma_edges_resolve(ns, joins, (k - 1) as nat, e);
    } else {
        lemma_edges_count(ns, joins, (k - 1) as nat);
    }
}

proof fn lemma_edges_count(ns: Seq<FromSpec>, joins: Seq<(ColSpec, ColSpec)>, k: nat)
    requires
        k <= joins.len(),
        spec_edges_upto(ns, joins, k) is Ok,
    ensures
        spec_edges_upto(ns, joins, k).unwrap().len() == k,
    decreases k,
{
    if k > 0 {
        lemma_edges_count(ns, joins, (k - 1) as nat);
    }
}

/// The table that a join column belongs to goes by the alias that the column names.
proof fn lemma_vertex_alias(ns: Seq<FromSpec>, col: ColSpec, v: usize)
    requires
        ns.len() <= usize::MAX,
        spec_vertex_of(ns, col) == Ok::<usize, PlanError>(v),
    ensures
        v < ns.len(),
        col is Table,
        col->table == ns[v as int].alias,
{
    let names = aliases(ns);
    names.index_of_first_ensures(col->table);
}

/// The columns of `vs` are columns of tables, under the aliases of the
/// vertices from position `from` of `vertices` on.
spec fn aliased_from(vs: Seq<ColSpec>, ns: Seq<FromSpec>, vertices: Seq<usize>, from: int) -> bool {
    forall|i: int|
        0 <= i < vs.len() ==> (#[trigger] vs[i]) is Table && exists|k: int|
            from <= k < vertices.len() && vs[i]->table == ns[#[trigger] vertices[k] as int].alias
}

/// The chain of joins along a walk through the join graph has virtual schemas
/// that fit together: the tables of a walk differ, and so do their aliases.
proof fn lemma_assemble_consistent(
    ns: Seq<FromSpec>,
    joins: Seq<(ColSpec, ColSpec)>,
    edges: Seq<(usize, usize)>,
    meta: MetadataSpec,
    start: usize,
    vertices: Seq<usize>,
    path: Seq<usize>,
    from: nat,
)
    requires
        ns.len() <= usize::MAX,
        aliases(ns).no_duplicates(),
        spec_edges_upto(ns, joins, joins.len()) == Ok::<Seq<(usize, usize)>, PlanError>(edges),
        start < ns.len(),
        walk(ns.len() as usize, edges, start, path) == Some(vertices),
        from < vertices.len(),
        spec_assemble(ns, joins, edges, meta, vertices, path, from) is Ok,
    ensures
        consistent(spec_assemble(ns, joins, edges, meta, vertices, path, from).unwrap()),
        aliased_from(
            spec_assemble(ns, joins, edges, meta, vertices, path, from).unwrap().vs,
            ns,
            vertices,
            from as int,
        ),
    decreases vertices.len() - from,
{
    let n = ns.len() as usize;
    lemma_walk_len(n, edges, start, path);
    lemma_walk_in_range(n, edges, start, path);
    lemma_edges_count(ns, joins, joins.len());
    let tree = spec_assemble(ns, joins, edges, meta, vertices, path, from).unwrap();
    let v = vertices[from as int];
    let scan = spec_scan(ns[v as int].table, ns[v as int].alias, meta).unwrap();
    assert(aliased_from(scan.vs, ns, vertices, from as int)) by {
        assert forall|i: int| 0 <= i < scan.vs.len() implies (#[trigger] scan.vs[i]) is Table
            && exists|k: int|
            from <= k < vertices.len() && scan.vs[i]->table == ns[#[trigger] vertices[k] as int]
                .alias by {
            assert(scan.vs[i]->table == ns[vertices[from as int] as int].alias);
        }
    }
    if from + 1 < vertices.len() {
        lemma_assemble_consistent(ns, joins, edges, meta, start, vertices, path, from + 1);
        let rest = spec_assemble(ns, joins, edges, meta, vertices, path, from + 1).unwrap();
        lemma_walk_step(n, edges, start, path, from as int);
        lemma_walk_distinct(n, edges, start, path);
        lemma_walk_in_range(n, edges, start, path);
        let e = path[from as int] as int;
        lemma_edges_resolve(ns, joins, joins.len(), e);
        lemma_vertex_alias(ns, joins[e].0, edges[e].0);
        lemma_vertex_alias(ns, joins[e].1, edges[e].1);
        let w = vertices[from as int + 1];
        let names = aliases(ns);
        let build_attr = tree.node->build_attr;
        let probe_attr = tree.node->probe_attr;
        assert(build_attr is Table && build_attr->table == ns[v as int].alias);
        assert(probe_attr is Table && probe_attr->table == ns[w as int].alias);
        assert(v != w);
        assert(names[v as int] == ns[v as int].alias);
        assert(names[w as int] == ns[w as int].alias);
        assert(!rest.vs.contains(build_attr)) by {
            if rest.vs.contains(build_attr) {
                let i = choose|i: int| 0 <= i < rest.vs.len() && rest.vs[i] == build_attr;
                let k = choose|k: int|
                    from + 1 <= k < vertices.len() && rest.vs[i]->table == ns[#[trigger] vertices[k] as int]
                        .alias;
                assert(names[vertices[k] as int] == ns[vertices[k] as int].alias);
                assert(vertices[k] == v);
            }
        }
        assert(!scan.vs.contains(probe_attr)) by {
            if scan.vs.contains(probe_attr) {
                let i = choose|i: int| 0 <= i < scan.vs.len() && scan.vs[i] == probe_attr;
                assert(scan.vs[i]->table == ns[v as int].alias);
            }
        }
        assert(tree.vs == scan.vs + rest.vs);
        assert(consistent(scan));
        assert(*tree.node->build == scan);
        assert(*tree.node->probe == rest);
        assert(consistent(tree));
        assert(aliased_from(tree.vs, ns, vertices, from as int)) by {
            assert forall|i: int| 0 <= i < tree.vs.len() implies (#[trigger] tree.vs[i]) is Table
                && exists|k: int|
                from <= k < vertices.len() && tree.vs[i]->table == ns[#[trigger] vertices[k] as int]
                    .alias by {
                if i < scan.vs.len() {
                    assert(tree.vs[i] == scan.vs[i]);
                    assert(scan.vs[i]->table == ns[vertices[from as int] as int].alias);
                } else {
                    let j = i - scan.vs.len();
                    assert(tree.vs[i] == rest.vs[j]);
                    let k = choose|k: int|
                        from + 1 <= k < vertices.len() && rest.vs[j]->table == ns[#[trigger] vertices[k] as int]
                            .alias;
                    assert(from <= k < vertices.len());
                    assert(tree.vs[i]->table == ns[vertices[k] as int].alias);
                }
            }
        }
    }
}

/// The initial operator tree of a FROM list without a repeated alias has
/// virtual schemas that fit together.
pub proof fn lemma_plan_joins_consistent(
    ns: Seq<FromSpec>,
    joins: Seq<(ColSpec, ColSpec)>,
    meta: MetadataSpec,
)
    requires
        ns.len() <= usize::MAX,
        aliases(ns).no_duplicates(),
        spec_plan_joins(ns, joins, meta) is Ok,
    ensures
        consistent(spec_plan_joins(ns, joins, meta).unwrap()),
{
    if ns.len() != 1 {
        let order = spec_join_order(ns, joins).unwrap();
        let edges = order.0;
        let vertices = order.1;
        let path = order.2;
        let n = ns.len() as usize;
        let first = first_hamiltonian(n, edges).unwrap();
        assert(is_first_hamiltonian(n, edges, first.0, first.1));
        assert(is_hamiltonian(n, edges, first.0, first.1));
        lemma_walk_len(n, edges, first.0, path);
        lemma_assemble_consistent(ns, joins, edges, meta, first.0, vertices, path, 0);
    }
}

/// What planning returns has passed schema resolution in full: every operator
/// has a local schema, every column that an operator refers to is found in the
/// local schema of the input that supplies it, no projection is redundant, and
/// the root puts out the columns of the SELECT list in their order.
pub proof fn lemma_plan_resolved(query: QuerySpec, meta: MetadataSpec)
    requires
        spec_plan(query, meta) is Ok,
        query.body matches SetExprSpec::Select(select) ==> select.from.len() <= usize::MAX,
    ensures
        resolved(spec_plan(query, meta).unwrap()),
        projections_needed(spec_plan(query, meta).unwrap()),
        spec_plan(query, meta).unwrap().ls == Some(spec_read_query(query).unwrap().2.items),
{
    let read = spec_read_query(query).unwrap();
    let ns = read.0;
    let selection = read.1;
    let output = read.2.items;
    let grouping = read.3;
    let sort_limit = read.4;
    let select = query.body->Select_0;
    lemma_namespace_unique(select.from, select.from.len());
    let joins = equijoins_upto(selection->And_0, selection->And_0.len());
    let known = implied_relation(spec_join_facts(ns, joins));
    lemma_plan_joins_consistent(ns, joins, meta);
    let joined = spec_plan_joins(ns, joins, meta).unwrap();
    lemma_apply_filters_consistent(selection, joined, known);
    let filtered = spec_apply_filters(selection, joined, known).unwrap();
    lemma_pushdown_consistent(filtered);
    let pushed = spec_pushdown(filtered).unwrap();
    lemma_wraps_consistent(grouping, sort_limit, pushed);
    let wrapped = spec_sort_wrap(sort_limit, spec_group_wrap(grouping, pushed));
    lemma_consistent_placed(wrapped);
    lemma_local_project_resolved(wrapped, output, true);
    lemma_local_project_needed(wrapped, output, true);
    lemma_local_project_schema(wrapped, output, true);
}

} // verus!
