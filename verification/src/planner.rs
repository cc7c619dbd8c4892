use vstd::prelude::*;
pub use crate::equality::EqualityFactSet;
pub use crate::schema::{LocalSchema, VirtualSchema};
use crate::agg_grouping::{spec_agg_grouping, spec_group_wrap, AggGrouping, AggGroupingSpec};
use crate::equality::{implied, implied_relation, touched};
use crate::error::PlanError;
use crate::join_order::{
    first_hamiltonian, hamiltonian_path, lemma_walk_in_range, lemma_walk_len, walk, JoinOrder,
};
use crate::metadata::{MetaType, Metadata, MetadataSpec, TableSpec};
use crate::ops::{ColRef, ColSpec, NodeSpec, Op, OpJoin, OpScan, PlanSpec};
use crate::optimizer::{pushdown_filters, spec_pushdown};
use crate::projection::{spec_projection_upto, Projection, ProjectionSpec};
use crate::query::{
    ExprSpec, QuerySpec, SetExprSpec, SqlQuery, SqlSetExpr, SqlTableFactor, TableFactorSpec,
};
use crate::plan_laws::lemma_plan_resolved;
use crate::resolve::{local_project, projections_needed, resolved, spec_local_project};
use crate::schema::table_columns;
use crate::selection::{
    conjuncts_upto, equijoins_upto, outcome_model, pairs_model, spec_apply_filters,
    spec_normalized, spec_selection_of, SelSpec, Selection,
};
use crate::sort_limit::{spec_sort_limit, spec_sort_wrap, SortLimit, SortLimitSpec};

verus! {

/// A table of the FROM list and the alias under which the query names it.
#[derive(Debug, PartialEq, Eq)]
pub struct FromTable {
    pub alias: String,
    pub table: String,
}

/// Mathematical value of an entry of the FROM list.
pub struct FromSpec {
    pub alias: Seq<char>,
    pub table: Seq<char>,
}

impl View for FromTable {
    type V = FromSpec;

    open spec fn view(&self) -> FromSpec {
        FromSpec { alias: self.alias@, table: self.table@ }
    }
}

/// The values of the entries of a FROM list.
pub open spec fn from_model(ns: Seq<FromTable>) -> Seq<FromSpec> {
    ns.map_values(|t: FromTable| t@)
}

/// The aliases of a FROM list, in order.
pub open spec fn aliases(ns: Seq<FromSpec>) -> Seq<Seq<char>> {
    ns.map_values(|t: FromSpec| t.alias)
}

/// The names of the tables that the metadata defines, in order.
pub open spec fn table_names(tables: Seq<TableSpec>) -> Seq<Seq<char>> {
    tables.map_values(|t: TableSpec| t.name)
}

/// The scalar types of the columns of a table, in order.
pub open spec fn column_types(columns: Seq<(Seq<char>, MetaType)>) -> Seq<MetaType> {
    columns.map_values(|c: (Seq<char>, MetaType)| c.1)
}

/// A scan of `table` under `alias`: of the last definition of that name in the
/// metadata. It exposes every column of the table and has no local schema yet.
pub open spec fn spec_scan(table: Seq<char>, alias: Seq<char>, meta: MetadataSpec) -> Result<
    PlanSpec,
    PlanError,
> {
    match table_names(meta.tables).index_of_last(table) {
        Some(i) => Ok(
            PlanSpec {
                node: NodeSpec::Scan {
                    file: meta.tables[i].file,
                    filetype: meta.tables[i].filetype,
                    tab_name: table,
                    schema: column_types(meta.tables[i].columns),
                },
                ls: None,
                vs: table_columns(meta.tables[i].columns, alias),
                cfg_name: None,
            },
        ),
        None => Err(PlanError::UnknownTable),
    }
}

/// The table of the FROM list that a join column belongs to: the first whose
/// alias the column names.
pub open spec fn spec_vertex_of(ns: Seq<FromSpec>, col: ColSpec) -> Result<usize, PlanError> {
    match col {
        ColSpec::Table { table, .. } => match aliases(ns).index_of_first(table) {
            Some(i) => Ok(i as usize),
            None => Err(PlanError::ColumnNotFound),
        },
        ColSpec::Aggregate { .. } => Err(PlanError::ColumnNotFound),
    }
}

/// The edges of the join graph for the first `k` candidate equalities: for
/// each, the two tables that its columns belong to.
pub open spec fn spec_edges_upto(ns: Seq<FromSpec>, joins: Seq<(ColSpec, ColSpec)>, k: nat) -> Result<
    Seq<(usize, usize)>,
    PlanError,
>
    decreases k,
{
    if k == 0 || k > joins.len() {
        Ok(Seq::empty())
    } else {
        match spec_edges_upto(ns, joins, (k - 1) as nat) {
            Ok(edges) => match spec_vertex_of(ns, joins[k - 1].0) {
                Ok(l) => match spec_vertex_of(ns, joins[k - 1].1) {
                    Ok(r) => Ok(edges.push((l, r))),
                    Err(e) => Err(e),
                },
                Err(e) => Err(e),
            },
            Err(e) => Err(e),
        }
    }
}

/// The equalities that a join order consumes: that of each of the first `k`
/// edges of its path.
pub open spec fn used_pairs(joins: Seq<(ColSpec, ColSpec)>, path: Seq<usize>, k: nat) -> Seq<
    (ColSpec, ColSpec),
>
    decreases k,
{
    if k == 0 || k > path.len() {
        Seq::empty()
    } else {
        used_pairs(joins, path, (k - 1) as nat).push(joins[path[k - 1] as int])
    }
}

/// The chain of joins for the part of a join order that starts at its position
/// `from`: the last table is a bare scan; before it, each table is the build
/// side of a join whose probe side is the chain of the tables after it. The
/// join attributes are the two columns of the edge that leads on, the build
/// attribute being the edge's left column where the table is the edge's left end.
pub open spec fn spec_assemble(
    ns: Seq<FromSpec>,
    joins: Seq<(ColSpec, ColSpec)>,
    edges: Seq<(usize, usize)>,
    meta: MetadataSpec,
    vertices: Seq<usize>,
    path: Seq<usize>,
    from: nat,
) -> Result<PlanSpec, PlanError>
    decreases vertices.len() - from,
{
    if from >= vertices.len() {
        Err(PlanError::NoLinearJoinOrder)
    } else {
        let v = vertices[from as int] as int;
        match spec_scan(ns[v].table, ns[v].alias, meta) {
            Ok(scan) => if from + 1 == vertices.len() {
                Ok(scan)
            } else {
                match spec_assemble(ns, joins, edges, meta, vertices, path, from + 1) {
                    Ok(rest) => {
                        let e = path[from as int] as int;
                        let forward = edges[e].0 == vertices[from as int];
                        Ok(
                            PlanSpec {
                                node: NodeSpec::Join {
                                    build: Box::new(scan),
                                    build_attr: if forward {
                                        joins[e].0
                                    } else {
                                        joins[e].1
                                    },
                                    probe: Box::new(rest),
                                    probe_attr: if forward {
                                        joins[e].1
                                    } else {
                                        joins[e].0
                                    },
                                },
                                ls: None,
                                vs: scan.vs + rest.vs,
                                cfg_name: None,
                            },
                        )
                    },
                    Err(e) => Err(e),
                }
            },
            Err(e) => Err(e),
        }
    }
}

/// The join order chosen for a FROM list and its candidate equalities: the
/// first Hamiltonian path of the join graph, with the vertices it meets.
pub open spec fn spec_join_order(ns: Seq<FromSpec>, joins: Seq<(ColSpec, ColSpec)>) -> Result<
    (Seq<(usize, usize)>, Seq<usize>, Seq<usize>),
    PlanError,
> {
    match spec_edges_upto(ns, joins, joins.len()) {
        Ok(edges) => match first_hamiltonian(ns.len() as usize, edges) {
            Some((start, path)) => match walk(ns.len() as usize, edges, start, path) {
                Some(vertices) => Ok((edges, vertices, path)),
                None => Err(PlanError::NoLinearJoinOrder),
            },
            None => Err(PlanError::NoLinearJoinOrder),
        },
        Err(e) => Err(e),
    }
}

/// The initial operator tree for a FROM list: a bare scan for a single table,
/// else the chain of joins along the chosen join order.
pub open spec fn spec_plan_joins(
    ns: Seq<FromSpec>,
    joins: Seq<(ColSpec, ColSpec)>,
    meta: MetadataSpec,
) -> Result<PlanSpec, PlanError> {
    if ns.len() == 1 {
        spec_scan(ns[0].table, ns[0].alias, meta)
    } else {
        match spec_join_order(ns, joins) {
            Ok((edges, vertices, path)) => spec_assemble(ns, joins, edges, meta, vertices, path, 0),
            Err(e) => Err(e),
        }
    }
}

/// The equalities that the initial operator tree guarantees: none for a single
/// table, else those of the edges of the chosen join order.
pub open spec fn spec_join_facts(ns: Seq<FromSpec>, joins: Seq<(ColSpec, ColSpec)>) -> Seq<
    (ColSpec, ColSpec),
> {
    if ns.len() == 1 {
        Seq::empty()
    } else {
        match spec_join_order(ns, joins) {
            Ok((edges, vertices, path)) => used_pairs(joins, path, path.len()),
            Err(e) => Seq::empty(),
        }
    }
}

/// A scan of `table` under `alias`.
pub fn make_scan(table: &String, alias: &String, meta: &Metadata) -> (res: Result<Op, PlanError>)
    ensures
        outcome_model(res) == spec_scan(table@, alias@, meta@),
{
    let ghost names = table_names(meta@.tables);
    proof {
        names.index_of_last_ensures(table@);
    }
    let mut i: usize = meta.tables.len();
    while i > 0
        invariant
            i <= meta.tables.len(),
            names == table_names(meta@.tables),
            forall|j: int| i <= j < meta.tables.len() ==> names[j] != table@,
        decreases i,
    {
        i -= 1;
        let table_meta = &meta.tables[i];
        if table_meta.name == *table {
            proof {
                assert(names[i as int] == table@);
                names.index_of_last_ensures(table@);
                assert(meta@.tables[i as int] == table_meta@);
            }
            let mut schema: Vec<MetaType> = Vec::new();
            let mut k: usize = 0;
            while k < table_meta.schema.columns.len()
                invariant
                    k <= table_meta.schema.columns.len(),
                    schema.len() == k,
                    forall|j: int| 0 <= j < k ==> schema[j] == table_meta.schema.columns[j].1,
                decreases table_meta.schema.columns.len() - k,
            {
                schema.push(table_meta.schema.columns[k].1);
                k += 1;
            }
            assert(schema@ =~= column_types(table_meta@.columns));
            return Ok(
                Op::ScanOp(
                    Box::new(
                        OpScan {
                            tab_name: table.clone(),
                            file: table_meta.file.clone(),
                            filetype: table_meta.filetype.clone(),
                            schema,
                            ls: None,
                            vs: VirtualSchema::from_meta_table(table_meta, alias.as_str()),
                            cfg_name: None,
                        },
                    ),
                ),
            );
        }
    }
    Err(PlanError::UnknownTable)
}

/// The index of the first table of the FROM list whose alias is `alias`.
fn alias_index(ns: &Vec<FromTable>, alias: &String) -> (res: Option<usize>)
    ensures
        match res {
            Some(i) => aliases(from_model(ns@)).index_of_first(alias@) == Some(i as int) && i
                < ns.len(),
            None => aliases(from_model(ns@)).index_of_first(alias@) is None,
        },
{
    let ghost names = aliases(from_model(ns@));
    proof {
        names.index_of_first_ensures(alias@);
    }
    let mut i: usize = 0;
    while i < ns.len()
        invariant
            i <= ns.len(),
            names == aliases(from_model(ns@)),
            forall|j: int| 0 <= j < i ==> names[j] != alias@,
        decreases ns.len() - i,
    {
        if ns[i].alias == *alias {
            proof {
                assert(names[i as int] == alias@);
                names.index_of_first_ensures(alias@);
            }
            return Some(i);
        }
        i += 1;
    }
    None
}

/// The index of the table of the FROM list that the join column `colref` belongs to.
fn vertex_of(ns: &Vec<FromTable>, colref: &ColRef) -> (res: Result<usize, PlanError>)
    ensures
        res == spec_vertex_of(from_model(ns@), colref@),
{
    match colref {
        ColRef::TableRef { table, column: _ } => match alias_index(ns, table) {
            Some(i) => Ok(i),
            None => Err(PlanError::ColumnNotFound),
        },
        ColRef::AggregateRef { .. } => Err(PlanError::ColumnNotFound),
    }
}

/// The edges of the join graph: for each candidate equality, the indices of the
/// two tables that its columns belong to.
fn join_edges(ns: &Vec<FromTable>, potential_joins: &Vec<(ColRef, ColRef)>) -> (res: Result<
    Vec<(usize, usize)>,
    PlanError,
>)
    ensures
        match res {
            Ok(edges) => spec_edges_upto(
                from_model(ns@),
                pairs_model(potential_joins@),
                potential_joins.len() as nat,
            ) == Ok::<Seq<(usize, usize)>, PlanError>(edges@),
            Err(e) => spec_edges_upto(
                from_model(ns@),
                pairs_model(potential_joins@),
                potential_joins.len() as nat,
            ) == Err::<Seq<(usize, usize)>, PlanError>(e),
        },
{
    let ghost nsm = from_model(ns@);
    let ghost joins = pairs_model(potential_joins@);
    let mut edges: Vec<(usize, usize)> = Vec::new();
    let mut k: usize = 0;
    while k < potential_joins.len()
        invariant
            k <= potential_joins.len(),
            nsm == from_model(ns@),
            joins == pairs_model(potential_joins@),
            spec_edges_upto(nsm, joins, k as nat) == Ok::<Seq<(usize, usize)>, PlanError>(edges@),
        decreases potential_joins.len() - k,
    {
        let left: usize = match vertex_of(ns, &potential_joins[k].0) {
            Ok(l) => l,
            Err(e) => {
                proof {
                    lemma_edges_fail(nsm, joins, (k + 1) as nat, joins.len());
                }
                return Err(e);
            },
        };
        let right: usize = match vertex_of(ns, &potential_joins[k].1) {
            Ok(r) => r,
            Err(e) => {
                proof {
                    lemma_edges_fail(nsm, joins, (k + 1) as nat, joins.len());
                }
                return Err(e);
            },
        };
        edges.push((left, right));
        k += 1;
    }
    Ok(edges)
}

/// Once a candidate equality has failed to resolve, those after it change nothing.
proof fn lemma_edges_fail(ns: Seq<FromSpec>, joins: Seq<(ColSpec, ColSpec)>, k: nat, n: nat)
    requires
        k <= n <= joins.len(),
        spec_edges_upto(ns, joins, k) is Err,
    ensures
        spec_edges_upto(ns, joins, n) == spec_edges_upto(ns, joins, k),
    decreases n - k,
{
    if k < n {
        lemma_edges_fail(ns, joins, k, (n - 1) as nat);
    }
}

/// The equalities of the edges of `path`, recorded in the order of the path.
fn record_used(potential_joins: &Vec<(ColRef, ColRef)>, path: &Vec<usize>) -> (facts:
    EqualityFactSet)
    requires
        forall|i: int| 0 <= i < path.len() ==> path[i] < potential_joins.len(),
    ensures
        forall|x: ColSpec, y: ColSpec| #[trigger]
            facts.related(x, y) == implied(
                used_pairs(pairs_model(potential_joins@), path@, path.len() as nat),
                x,
                y,
            ),
{
    let ghost joins = pairs_model(potential_joins@);
    let mut facts = EqualityFactSet::new();
    let mut k: usize = 0;
    while k < path.len()
        invariant
            k <= path.len(),
            joins == pairs_model(potential_joins@),
            forall|i: int| 0 <= i < path.len() ==> path[i] < potential_joins.len(),
            forall|x: ColSpec, y: ColSpec| #[trigger]
                facts.related(x, y) == implied(used_pairs(joins, path@, k as nat), x, y),
        decreases path.len() - k,
    {
        let edge = &potential_joins[path[k]];
        let ghost before = facts;
        let ghost used = used_pairs(joins, path@, k as nat);
        facts.insert_rule(&edge.0, &edge.1);
        proof {
            let now = used_pairs(joins, path@, (k + 1) as nat);
            assert(now == used.push((edge.0@, edge.1@)));
            assert(now.drop_last() =~= used);
            assert forall|x: ColSpec, y: ColSpec| #[trigger]
                facts.related(x, y) == implied(now, x, y) by {
                assert(before.touches(x, edge.0@, edge.1@) == touched(used, x, edge.0@, edge.1@));
                assert(before.touches(y, edge.0@, edge.1@) == touched(used, y, edge.0@, edge.1@));
            }
        }
        k += 1;
    }
    facts
}

/// An assembly fails only where the metadata lacks a table, and then as a whole.
proof fn lemma_assemble_fails(
    ns: Seq<FromSpec>,
    joins: Seq<(ColSpec, ColSpec)>,
    edges: Seq<(usize, usize)>,
    meta: MetadataSpec,
    vertices: Seq<usize>,
    path: Seq<usize>,
    from: nat,
    at: nat,
)
    requires
        from <= at < vertices.len(),
        spec_assemble(ns, joins, edges, meta, vertices, path, at) is Err,
    ensures
        spec_assemble(ns, joins, edges, meta, vertices, path, from) == Err::<PlanSpec, PlanError>(
            PlanError::UnknownTable,
        ),
    decreases vertices.len() - from,
{
    if from < at {
        lemma_assemble_fails(ns, joins, edges, meta, vertices, path, from + 1, at);
    } else if from + 1 < vertices.len() {
        if spec_assemble(ns, joins, edges, meta, vertices, path, from + 1) is Err {
            lemma_assemble_fails(ns, joins, edges, meta, vertices, path, from + 1, from + 1);
        }
    }
}

/// Builds the chain of joins along a join order, from its last table backward.
fn assemble(
    ns: &Vec<FromTable>,
    potential_joins: &Vec<(ColRef, ColRef)>,
    edges: &Vec<(usize, usize)>,
    meta: &Metadata,
    order: &JoinOrder,
) -> (res: Result<Op, PlanError>)
    requires
        order.vertices.len() > 0,
        order.path.len() + 1 == order.vertices.len(),
        edges.len() == potential_joins.len(),
        forall|i: int| 0 <= i < order.vertices.len() ==> order.vertices[i] < ns.len(),
        forall|i: int| 0 <= i < order.path.len() ==> order.path[i] < edges.len(),
    ensures
        outcome_model(res) == spec_assemble(
            from_model(ns@),
            pairs_model(potential_joins@),
            edges@,
            meta@,
            order.vertices@,
            order.path@,
            0,
        ),
{
    let ghost nsm = from_model(ns@);
    let ghost joins = pairs_model(potential_joins@);
    let n: usize = order.vertices.len();
    let mut from: usize = n - 1;
    let last = &ns[order.vertices[from]];
    let mut tree = match make_scan(&last.table, &last.alias, meta) {
        Ok(scan) => scan,
        Err(e) => {
            proof {
                lemma_assemble_fails(
                    nsm,
                    joins,
                    edges@,
                    meta@,
                    order.vertices@,
                    order.path@,
                    0,
                    from as nat,
                );
            }
            return Err(e);
        },
    };
    while from > 0
        invariant
            from < n,
            n == order.vertices.len(),
            order.path.len() + 1 == order.vertices.len(),
            edges.len() == potential_joins.len(),
            nsm == from_model(ns@),
            joins == pairs_model(potential_joins@),
            forall|i: int| 0 <= i < order.vertices.len() ==> order.vertices[i] < ns.len(),
            forall|i: int| 0 <= i < order.path.len() ==> order.path[i] < edges.len(),
            spec_assemble(nsm, joins, edges@, meta@, order.vertices@, order.path@, from as nat)
                == Ok::<PlanSpec, PlanError>(tree@),
        decreases from,
    {
        from -= 1;
        let vertex: usize = order.vertices[from];
        let table = &ns[vertex];
        let build = match make_scan(&table.table, &table.alias, meta) {
            Ok(scan) => scan,
            Err(e) => {
                proof {
                    lemma_assemble_fails(
                        nsm,
                        joins,
                        edges@,
                        meta@,
                        order.vertices@,
                        order.path@,
                        0,
                        from as nat,
                    );
                }
                return Err(e);
            },
        };
        let e: usize = order.path[from];
        let pair = &potential_joins[e];
        let forward = edges[e].0 == vertex;
        let (start_cref, next_cref) = if forward {
            (pair.0.clone(), pair.1.clone())
        } else {
            (pair.1.clone(), pair.0.clone())
        };
        let vs = VirtualSchema::cat(&build.virtual_schema(), &tree.virtual_schema());
        tree =
        Op::JoinOp(
            Box::new(
                OpJoin {
                    probe: tree,
                    probe_join_attribute: next_cref,
                    build,
                    build_join_attribute: start_cref,
                    ls: None,
                    vs,
                    cfg_name: None,
                },
            ),
        );
    }
    Ok(tree)
}

/// Plans the joins of a FROM list: a bare scan for a single table; else the join
/// graph is searched for a path through all tables along the candidate
/// equalities, and the tables are joined along the first path found. Returns
/// the operator tree and the equalities that it guarantees.
pub fn plan_joins(
    from_namespace: &Vec<FromTable>,
    potential_joins: &Vec<(ColRef, ColRef)>,
    meta: &Metadata,
) -> (res: Result<(Op, EqualityFactSet), PlanError>)
    ensures
        match res {
            Ok((op, facts)) => {
                &&& spec_plan_joins(
                    from_model(from_namespace@),
                    pairs_model(potential_joins@),
                    meta@,
                ) == Ok::<PlanSpec, PlanError>(op@)
                &&& facts.relation() == implied_relation(
                    spec_join_facts(from_model(from_namespace@), pairs_model(potential_joins@)),
                )
            },
            Err(e) => spec_plan_joins(
                from_model(from_namespace@),
                pairs_model(potential_joins@),
                meta@,
            ) == Err::<PlanSpec, PlanError>(e),
        },
{
    let ghost nsm = from_model(from_namespace@);
    let ghost joins = pairs_model(potential_joins@);
    if from_namespace.len() == 1 {
        let single_tab = &from_namespace[0];
        let facts = EqualityFactSet::new();
        assert(facts.relation() =~= implied_relation(Seq::empty()));
        return match make_scan(&single_tab.table, &single_tab.alias, meta) {
            Ok(scan) => Ok((scan, facts)),
            Err(e) => Err(e),
        };
    }
    let edges = match join_edges(from_namespace, potential_joins) {
        Ok(edges) => edges,
        Err(e) => {
            return Err(e);
        },
    };
    proof {
        lemma_edges_len(nsm, joins, joins.len());
    }
    let order = match hamiltonian_path(from_namespace.len(), &edges) {
        Some(order) => order,
        None => {
            return Err(PlanError::NoLinearJoinOrder);
        },
    };
    proof {
        let n = from_namespace.len();
        lemma_walk_in_range(n, edges@, order.vertices[0], order.path@);
        lemma_walk_len(n, edges@, order.vertices[0], order.path@);
        assert(order.vertices[0] < n);
    }
    let equality_set = record_used(potential_joins, &order.path);
    assert(equality_set.relation() =~= implied_relation(spec_join_facts(nsm, joins)));
    match assemble(from_namespace, potential_joins, &edges, meta, &order) {
        Ok(op) => Ok((op, equality_set)),
        Err(e) => Err(e),
    }
}

/// There is one edge for each candidate equality.
proof fn lemma_edges_len(ns: Seq<FromSpec>, joins: Seq<(ColSpec, ColSpec)>, k: nat)
    requires
        k <= joins.len(),
        spec_edges_upto(ns, joins, k) is Ok,
    ensures
        spec_edges_upto(ns, joins, k).unwrap().len() == k,
    decreases k,
{
    if k > 0 {
        lemma_edges_len(ns, joins, (k - 1) as nat);
    }
}

/// The entry of the FROM list that a table factor stands for: a table with a
/// name of one part, under its alias or, without one, under its own name.
pub open spec fn spec_from_table(t: TableFactorSpec) -> Result<FromSpec, PlanError> {
    match t {
        TableFactorSpec::Table { name, alias } => if name.len() == 1 {
            Ok(
                FromSpec {
                    alias: match alias {
                        Some(a) => a,
                        None => name[0],
                    },
                    table: name[0],
                },
            )
        } else {
            Err(PlanError::UnsupportedSqlConstruct)
        },
        TableFactorSpec::Other => Err(PlanError::UnsupportedSqlConstruct),
    }
}

/// The FROM list with `entry` bound: in the place of the entry that has its
/// alias, else at the end. No alias is bound twice.
pub open spec fn spec_bind(ns: Seq<FromSpec>, entry: FromSpec) -> Seq<FromSpec> {
    match aliases(ns).index_of_first(entry.alias) {
        Some(i) => ns.update(i, entry),
        None => ns.push(entry),
    }
}

/// The table namespace that the first `k` items of a FROM list make.
pub open spec fn spec_namespace_upto(from: Seq<TableFactorSpec>, k: nat) -> Result<
    Seq<FromSpec>,
    PlanError,
>
    decreases k,
{
    if k == 0 || k > from.len() {
        Ok(Seq::empty())
    } else {
        match spec_namespace_upto(from, (k - 1) as nat) {
            Ok(ns) => match spec_from_table(from[k - 1]) {
                Ok(entry) => Ok(spec_bind(ns, entry)),
                Err(e) => Err(e),
            },
            Err(e) => Err(e),
        }
    }
}

proof fn lemma_namespace_fails(from: Seq<TableFactorSpec>, k: nat, n: nat)
    requires
        k <= n <= from.len(),
        spec_namespace_upto(from, k) is Err,
    ensures
        spec_namespace_upto(from, n) == spec_namespace_upto(from, k),
    decreases n - k,
{
    if k < n {
        lemma_namespace_fails(from, k, (n - 1) as nat);
    }
}

/// The table namespace of a FROM list.
pub fn build_namespace(from: &Vec<SqlTableFactor>) -> (res: Result<Vec<FromTable>, PlanError>)
    ensures
        match res {
            Ok(ns) => spec_namespace_upto(
                from@.map_values(|t: SqlTableFactor| t@),
                from.len() as nat,
            ) == Ok::<Seq<FromSpec>, PlanError>(from_model(ns@)),
            Err(e) => spec_namespace_upto(
                from@.map_values(|t: SqlTableFactor| t@),
                from.len() as nat,
            ) == Err::<Seq<FromSpec>, PlanError>(e),
        },
{
    let ghost items = from@.map_values(|t: SqlTableFactor| t@);
    let mut ns: Vec<FromTable> = Vec::new();
    let mut k: usize = 0;
    assert(from_model(ns@) =~= Seq::<FromSpec>::empty());
    while k < from.len()
        invariant
            k <= from.len(),
            items == from@.map_values(|t: SqlTableFactor| t@),
            spec_namespace_upto(items, k as nat) == Ok::<Seq<FromSpec>, PlanError>(
                from_model(ns@),
            ),
        decreases from.len() - k,
    {
        let ghost before = from_model(ns@);
        assert(items[k as int] == from[k as int]@);
        let entry = match &from[k] {
            SqlTableFactor::Table { name, alias } => {
                if name.len() != 1 {
                    proof {
                        lemma_namespace_fails(items, (k + 1) as nat, items.len());
                    }
                    return Err(PlanError::UnsupportedSqlConstruct);
                }
                let table = name[0].clone();
                let alias = match alias {
                    Some(a) => a.clone(),
                    None => table.clone(),
                };
                FromTable { alias, table }
            },
            SqlTableFactor::Other => {
                proof {
                    lemma_namespace_fails(items, (k + 1) as nat, items.len());
                }
                return Err(PlanError::UnsupportedSqlConstruct);
            },
        };
        let ghost bound = entry@;
        assert(spec_from_table(items[k as int]) == Ok::<FromSpec, PlanError>(bound));
        match alias_index(&ns, &entry.alias) {
            Some(i) => {
                ns.set(i, entry);
                assert(from_model(ns@) =~= before.update(i as int, bound));
            },
            None => {
                ns.push(entry);
                assert(from_model(ns@) =~= before.push(bound));
            },
        }
        k += 1;
    }
    Ok(ns)
}

/// The predicate of a WHERE clause in normal form; without a WHERE clause, the
/// empty conjunction, which holds of every row.
pub open spec fn spec_where(selection: Option<ExprSpec>) -> Result<SelSpec, PlanError> {
    match selection {
        Some(e) => match spec_selection_of(e) {
            Ok(s) => Ok(spec_normalized(s)),
            Err(e) => Err(e),
        },
        None => Ok(SelSpec::And(Seq::empty())),
    }
}

/// The operator tree for a query whose clauses have been read: the joins are
/// planned along the equalities of `selection`; the remaining predicates
/// become filters, which are pushed down; the aggregation and the sort/limit
/// are placed above; last, every node gets its local schema, such that the
/// root puts out exactly `output`.
pub open spec fn spec_plan_tree(
    ns: Seq<FromSpec>,
    selection: SelSpec,
    grouping: AggGroupingSpec,
    sort_limit: SortLimitSpec,
    output: Seq<ColSpec>,
    meta: MetadataSpec,
) -> Result<PlanSpec, PlanError>
    recommends
        selection is And,
{
    let joins = equijoins_upto(selection->And_0, selection->And_0.len());
    match spec_plan_joins(ns, joins, meta) {
        Ok(joined) => match spec_apply_filters(
            selection,
            joined,
            implied_relation(spec_join_facts(ns, joins)),
        ) {
            Ok(filtered) => match spec_pushdown(filtered) {
                Ok(pushed) => spec_local_project(
                    spec_sort_wrap(sort_limit, spec_group_wrap(grouping, pushed)),
                    output,
                    true,
                ),
                Err(e) => Err(e),
            },
            Err(e) => Err(e),
        },
        Err(e) => Err(e),
    }
}

/// What the clauses of a query ask for, read one after the other: the table
/// namespace, the predicate, the output, the grouping, the order and limit.
pub open spec fn spec_read_query(query: QuerySpec) -> Result<
    (Seq<FromSpec>, SelSpec, ProjectionSpec, AggGroupingSpec, SortLimitSpec),
    PlanError,
> {
    match query.body {
        SetExprSpec::Select(select) => match spec_namespace_upto(select.from, select.from.len()) {
            Ok(ns) => match spec_where(select.selection) {
                Ok(selection) => match spec_projection_upto(
                    select.projection,
                    select.projection.len(),
                ) {
                    Ok(projection) => match spec_agg_grouping(select, projection) {
                        Ok(grouping) => match spec_sort_limit(query) {
                            Ok(sort_limit) => Ok((ns, selection, projection, grouping, sort_limit)),
                            Err(e) => Err(e),
                        },
                        Err(e) => Err(e),
                    },
                    Err(e) => Err(e),
                },
                Err(e) => Err(e),
            },
            Err(e) => Err(e),
        },
        SetExprSpec::Other => Err(PlanError::UnsupportedSqlConstruct),
    }
}

/// The optimized operator tree of a query.
pub open spec fn spec_plan(query: QuerySpec, meta: MetadataSpec) -> Result<PlanSpec, PlanError> {
    match spec_read_query(query) {
        Ok((ns, selection, projection, grouping, sort_limit)) => spec_plan_tree(
            ns,
            selection,
            grouping,
            sort_limit,
            projection.items,
            meta,
        ),
        Err(e) => Err(e),
    }
}

/// The names of the output columns of a query, where it asks for an aggregate.
pub open spec fn spec_plan_names(query: QuerySpec) -> Option<Seq<Seq<char>>> {
    match spec_read_query(query) {
        Ok((ns, selection, projection, grouping, sort_limit)) => if grouping.agg_field is Some {
            Some(projection.aliases)
        } else {
            None
        },
        Err(e) => None,
    }
}

/// The value of a list of names that may be absent.
pub open spec fn opt_names_model(names: Option<Vec<String>>) -> Option<Seq<Seq<char>>> {
    match names {
        Some(v) => Some(v@.map_values(|s: String| s@)),
        None => None,
    }
}

/// Compiles a parsed query into its optimized operator tree. Returns the tree
/// and, where the query asks for an aggregate, the names of its output
/// columns. The root of the tree puts out the columns of the SELECT list, in
/// their order; every operator has its local schema, and finds in the local
/// schema of its input every column that it refers to.
pub fn plan(query: &SqlQuery, meta: &Metadata) -> (res: Result<(Op, Option<Vec<String>>), PlanError>)
    ensures
        match res {
            Ok((op, names)) => {
                &&& spec_plan(query@, meta@) == Ok::<PlanSpec, PlanError>(op@)
                &&& opt_names_model(names) == spec_plan_names(query@)
                &&& op@.ls == Some(spec_read_query(query@).unwrap().2.items)
                &&& resolved(op@)
                &&& projections_needed(op@)
            },
            Err(e) => spec_plan(query@, meta@) == Err::<PlanSpec, PlanError>(e),
        },
{
    let select = match &query.body {
        SqlSetExpr::Select(select) => select,
        SqlSetExpr::Other => {
            return Err(PlanError::UnsupportedSqlConstruct);
        },
    };
    let table_namespace = match build_namespace(&select.from) {
        Ok(ns) => ns,
        Err(e) => {
            return Err(e);
        },
    };
    let selection = match &select.selection {
        Some(filter) => match Selection::from_expr(filter) {
            Ok(s) => s,
            Err(e) => {
                return Err(e);
            },
        },
        None => {
            let none: Vec<Selection> = Vec::new();
            let all = Selection::And(none);
            assert(all@->And_0 =~= Seq::<SelSpec>::empty());
            proof {
                assert(conjuncts_upto(Seq::<SelSpec>::empty(), 0) =~= Seq::<SelSpec>::empty());
            }
            all
        },
    };
    let selection = selection.normalized();
    let projection = match Projection::from_items(&select.projection) {
        Ok(p) => p,
        Err(e) => {
            return Err(e);
        },
    };
    let agg_grouping = match AggGrouping::from_query(select, &projection) {
        Ok(g) => g,
        Err(e) => {
            return Err(e);
        },
    };
    let sort_limit = match SortLimit::from_query(query) {
        Ok(s) => s,
        Err(e) => {
            return Err(e);
        },
    };
    let potential_equijoins = selection.potential_equijoins();
    let (op, equality_set) = match plan_joins(&table_namespace, &potential_equijoins, meta) {
        Ok(pair) => pair,
        Err(e) => {
            return Err(e);
        },
    };
    let root_op = match selection.apply_filter_ops(op, &equality_set) {
        Ok(op) => op,
        Err(e) => {
            return Err(e);
        },
    };
    let root_op = match pushdown_filters(root_op) {
        Ok(op) => op,
        Err(e) => {
            return Err(e);
        },
    };
    let root_op = agg_grouping.apply_agg_grouping_ops(root_op);
    let root_op = sort_limit.apply_sort_limit_ops(root_op);
    let output_projection = projection.needed_projection();
    let names = if agg_grouping.has_aggregate() {
        Some(projection.needed_projection_aliases())
    } else {
        None
    };
    match local_project(root_op, output_projection.as_slice(), true) {
        Ok(op) => {
            proof {
                lemma_plan_resolved(query@, meta@);
            }
            Ok((op, names))
        },
        Err(e) => Err(e),
    }
}

} // verus!
