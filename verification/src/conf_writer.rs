use vstd::prelude::*;
use vstd::string::*;
use crate::conf_laws::{addressable, lemma_resolved_plan_is_written};
use crate::conf_value::{
    items_model, members_model, set_member, spec_render, spec_set_member, ConfSpec, ConfValue,
};
use crate::error::PlanError;
use crate::metadata::{MetaType, Metadata, MetadataSpec};
use crate::ops::{
    AggFunc, ColRef, ColSpec, NodeSpec, Op, OpAggGroup, OpFilter, OpJoin, OpProjection, OpScan,
    OpSortLimit, OpSubqueryProj, Order, PlanSpec,
};
use crate::resolve::resolved;
use crate::schema::{cols_model, opt_schema_model, LocalSchema};
use crate::text::{decimal, decimal_string};

verus! {

/// Hands out the names of the operators of a configuration: the name asked
/// for the first time it is asked for, and with a running number after that.
#[derive(Debug)]
pub struct ConfigNamespace {
    operators: Vec<(String, u32)>,
}

/// The names asked for so far, in order.
pub open spec fn asked_names(uses: Seq<(Seq<char>, u32)>) -> Seq<Seq<char>> {
    uses.map_values(|u: (Seq<char>, u32)| u.0)
}

/// How many names have been handed out.
pub open spec fn handed_out(uses: Seq<(Seq<char>, u32)>) -> nat
    decreases uses.len(),
{
    if uses.len() == 0 {
        0
    } else {
        handed_out(uses.drop_last()) + uses.last().1 as nat
    }
}

/// The name handed out when `requested` is asked for, and the uses after that.
pub open spec fn spec_name_operator(uses: Seq<(Seq<char>, u32)>, requested: Seq<char>) -> (
    Seq<char>,
    Seq<(Seq<char>, u32)>,
) {
    match asked_names(uses).index_of_first(requested) {
        Some(i) => (
            requested + decimal((uses[i].1 + 1) as nat),
            uses.update(i, (requested, (uses[i].1 + 1) as u32)),
        ),
        None => (requested, uses.push((requested, 1u32))),
    }
}

proof fn lemma_handed_out_update(uses: Seq<(Seq<char>, u32)>, i: int, entry: (Seq<char>, u32))
    requires
        0 <= i < uses.len(),
    ensures
        handed_out(uses.update(i, entry)) == handed_out(uses) - uses[i].1 + entry.1,
        uses[i].1 <= handed_out(uses),
    decreases uses.len(),
{
    let after = uses.update(i, entry);
    if i == uses.len() - 1 {
        assert(after.drop_last() =~= uses.drop_last());
    } else {
        assert(after.drop_last() =~= uses.drop_last().update(i, entry));
        lemma_handed_out_update(uses.drop_last(), i, entry);
    }
}

impl View for ConfigNamespace {
    type V = Seq<(Seq<char>, u32)>;

    closed spec fn view(&self) -> Seq<(Seq<char>, u32)> {
        self.operators@.map_values(|u: (String, u32)| (u.0@, u.1))
    }
}

impl ConfigNamespace {
    /// A namespace that has handed out no name.
    pub fn new() -> (res: ConfigNamespace)
        ensures
            res@ == Seq::<(Seq<char>, u32)>::empty(),
    {
        let res = ConfigNamespace { operators: Vec::new() };
        assert(res@ =~= Seq::<(Seq<char>, u32)>::empty());
        res
    }

    /// A name for an operator: `requested_name` itself the first time, and
    /// followed by 2, 3 and so on the times after that.
    pub fn name_operator(&mut self, requested_name: &str) -> (res: String)
        requires
            handed_out(old(self)@) < u32::MAX,
        ensures
            (res@, final(self)@) == spec_name_operator(old(self)@, requested_name@),
            handed_out(final(self)@) == handed_out(old(self)@) + 1,
    {
        let ghost before = self@;
        let ghost names = asked_names(before);
        proof {
            names.index_of_first_ensures(requested_name@);
        }
        let requested = requested_name.to_owned();
        let mut i: usize = 0;
        while i < self.operators.len()
            invariant
                i <= self.operators.len(),
                self@ == before,
                before == old(self)@,
                names == asked_names(before),
                requested@ == requested_name@,
                handed_out(before) < u32::MAX,
                forall|j: int| 0 <= j < i ==> names[j] != requested_name@,
            decreases self.operators.len() - i,
        {
            if self.operators[i].0 == requested {
                proof {
                    assert(names[i as int] == requested_name@);
                    names.index_of_first_ensures(requested_name@);
                    lemma_handed_out_update(before, i as int, before[i as int]);
                }
                let n: u32 = self.operators[i].1 + 1;
                proof {
                    lemma_handed_out_update(before, i as int, (requested@, n));
                }
                let mut res = requested_name.to_owned();
                res.append(decimal_string(n as u64).as_str());
                self.operators.set(i, (requested, n));
                assert(self@ =~= before.update(i as int, (requested_name@, n)));
                return res;
            }
            i += 1;
        }
        self.operators.push((requested, 1));
        proof {
            let after = before.push((requested_name@, 1u32));
            assert(self@ =~= after);
            assert(after.drop_last() =~= before);
        }
        requested_name.to_owned()
    }
}

impl MetaType {
    /// The name of the scalar type in a configuration.
    pub open spec fn spec_preflight_str(self) -> Seq<char> {
        match self {
            MetaType::LONG => "long"@,
            MetaType::DEC => "dec"@,
        }
    }

    /// The name of the scalar type in a configuration.
    pub fn preflight_str(&self) -> (res: String)
        ensures
            res@ == self.spec_preflight_str(),
    {
        match self {
            MetaType::LONG => "long".to_owned(),
            MetaType::DEC => "dec".to_owned(),
        }
    }
}

/// The number of operators of a tree that take a name.
pub open spec fn node_count(op: PlanSpec) -> nat
    decreases op,
{
    match op.node {
        NodeSpec::Scan { .. } => 1,
        NodeSpec::Join { build, probe, .. } => node_count(*build) + node_count(*probe) + 1,
        NodeSpec::Filter { input, .. } => node_count(*input) + 1,
        NodeSpec::Projection { input, .. } => node_count(*input) + 1,
        NodeSpec::AggGroup { input, .. } => node_count(*input) + 1,
        NodeSpec::SortLimit { input, .. } => node_count(*input) + 1,
        NodeSpec::SubqueryProj { input } => node_count(*input),
    }
}

/// The name that an operator asks for: its kind, and for a scan its table too.
pub open spec fn requested_name(op: PlanSpec) -> Seq<char> {
    match op.node {
        NodeSpec::Scan { tab_name, .. } => "scan"@ + tab_name,
        NodeSpec::Join { .. } => "join"@,
        NodeSpec::Filter { .. } => "filter"@,
        NodeSpec::Projection { .. } => "project"@,
        NodeSpec::AggGroup { .. } => "agg"@,
        NodeSpec::SortLimit { .. } => "sortlimit"@,
        NodeSpec::SubqueryProj { .. } => Seq::empty(),
    }
}

/// The operator with a name of its own, where it takes one and has none yet.
pub open spec fn spec_name_self(op: PlanSpec, uses: Seq<(Seq<char>, u32)>) -> (
    PlanSpec,
    Seq<(Seq<char>, u32)>,
) {
    if op.node is SubqueryProj || op.cfg_name is Some {
        (op, uses)
    } else {
        let named = spec_name_operator(uses, requested_name(op));
        (PlanSpec { cfg_name: Some(named.0), ..op }, named.1)
    }
}

/// The tree with a name for every operator that had none: inputs are named
/// before the operator above them, the build side before the probe side.
pub open spec fn spec_name_op(op: PlanSpec, uses: Seq<(Seq<char>, u32)>) -> (
    PlanSpec,
    Seq<(Seq<char>, u32)>,
)
    decreases op,
{
    match op.node {
        NodeSpec::Scan { .. } => spec_name_self(op, uses),
        NodeSpec::Join { build, build_attr, probe, probe_attr } => {
            let b = spec_name_op(*build, uses);
            let p = spec_name_op(*probe, b.1);
            spec_name_self(
                PlanSpec {
                    node: NodeSpec::Join {
                        build: Box::new(b.0),
                        build_attr,
                        probe: Box::new(p.0),
                        probe_attr,
                    },
                    ..op
                },
                p.1,
            )
        },
        NodeSpec::Filter { input, op: sym, field, value } => {
            let i = spec_name_op(*input, uses);
            spec_name_self(
                PlanSpec {
                    node: NodeSpec::Filter { input: Box::new(i.0), op: sym, field, value },
                    ..op
                },
                i.1,
            )
        },
        NodeSpec::Projection { input, projection } => {
            let i = spec_name_op(*input, uses);
            spec_name_self(
                PlanSpec { node: NodeSpec::Projection { input: Box::new(i.0), projection }, ..op },
                i.1,
            )
        },
        NodeSpec::AggGroup { input, grouping, agg_field } => {
            let i = spec_name_op(*input, uses);
            spec_name_self(
                PlanSpec {
                    node: NodeSpec::AggGroup { input: Box::new(i.0), grouping, agg_field },
                    ..op
                },
                i.1,
            )
        },
        NodeSpec::SortLimit { input, order_columns, order, limit } => {
            let i = spec_name_op(*input, uses);
            spec_name_self(
                PlanSpec {
                    node: NodeSpec::SortLimit {
                        input: Box::new(i.0),
                        order_columns,
                        order,
                        limit,
                    },
                    ..op
                },
                i.1,
            )
        },
        NodeSpec::SubqueryProj { input } => {
            let i = spec_name_op(*input, uses);
            (PlanSpec { node: NodeSpec::SubqueryProj { input: Box::new(i.0) }, ..op }, i.1)
        },
    }
}

/// Every operator of the tree that takes a name has one.
pub open spec fn named(op: PlanSpec) -> bool
    decreases op,
{
    match op.node {
        NodeSpec::Scan { .. } => op.cfg_name is Some,
        NodeSpec::Join { build, probe, .. } => op.cfg_name is Some && named(*build) && named(
            *probe,
        ),
        NodeSpec::Filter { input, .. } => op.cfg_name is Some && named(*input),
        NodeSpec::Projection { input, .. } => op.cfg_name is Some && named(*input),
        NodeSpec::AggGroup { input, .. } => op.cfg_name is Some && named(*input),
        NodeSpec::SortLimit { input, .. } => op.cfg_name is Some && named(*input),
        NodeSpec::SubqueryProj { input } => named(*input),
    }
}

/// Asks for a name where `cfg_name` holds none.
fn name_if_unnamed(cfg_name: Option<String>, requested: &str, namespace: &mut ConfigNamespace) -> (res:
    Option<String>)
    requires
        handed_out(old(namespace)@) < u32::MAX,
    ensures
        res is Some,
        cfg_name is Some ==> res == cfg_name && final(namespace)@ == old(namespace)@,
        cfg_name is None ==> (res.unwrap()@, final(namespace)@) == spec_name_operator(
            old(namespace)@,
            requested@,
        ),
        handed_out(final(namespace)@) <= handed_out(old(namespace)@) + 1,
{
    match cfg_name {
        Some(name) => Some(name),
        None => Some(namespace.name_operator(requested)),
    }
}

/// Gives a name to every operator of the tree that has none.
pub fn name_op(op: Op, namespace: &mut ConfigNamespace) -> (res: Op)
    requires
        handed_out(old(namespace)@) + node_count(op@) <= u32::MAX,
    ensures
        (res@, final(namespace)@) == spec_name_op(op@, old(namespace)@),
        handed_out(final(namespace)@) <= handed_out(old(namespace)@) + node_count(op@),
        named(res@),
    decreases op,
{
    match op {
        Op::ScanOp(scan) => {
            let s = *scan;
            let mut requested = "scan".to_owned();
            requested.append(s.tab_name.as_str());
            let cfg_name = name_if_unnamed(s.cfg_name, requested.as_str(), namespace);
            Op::ScanOp(
                Box::new(
                    OpScan {
                        file: s.file,
                        filetype: s.filetype,
                        tab_name: s.tab_name,
                        schema: s.schema,
                        ls: s.ls,
                        vs: s.vs,
                        cfg_name,
                    },
                ),
            )
        },
        Op::JoinOp(join) => {
            let j = *join;
            let build = name_op(j.build, namespace);
            let probe = name_op(j.probe, namespace);
            let cfg_name = name_if_unnamed(j.cfg_name, "join", namespace);
            Op::JoinOp(
                Box::new(
                    OpJoin {
                        build,
                        build_join_attribute: j.build_join_attribute,
                        probe,
                        probe_join_attribute: j.probe_join_attribute,
                        ls: j.ls,
                        vs: j.vs,
                        cfg_name,
                    },
                ),
            )
        },
        Op::FilterOp(filter) => {
            let f = *filter;
            let input = name_op(f.input, namespace);
            let cfg_name = name_if_unnamed(f.cfg_name, "filter", namespace);
            Op::FilterOp(
                Box::new(
                    OpFilter {
                        input,
                        op: f.op,
                        field: f.field,
                        value: f.value,
                        ls: f.ls,
                        vs: f.vs,
                        cfg_name,
                    },
                ),
            )
        },
        Op::ProjectionOp(projection) => {
            let p = *projection;
            let input = name_op(p.input, namespace);
            let cfg_name = name_if_unnamed(p.cfg_name, "project", namespace);
            Op::ProjectionOp(
                Box::new(
                    OpProjection { input, projection: p.projection, ls: p.ls, vs: p.vs, cfg_name },
                ),
            )
        },
        Op::AggGroupOp(agg_group) => {
            let a = *agg_group;
            let input = name_op(a.input, namespace);
            let cfg_name = name_if_unnamed(a.cfg_name, "agg", namespace);
            Op::AggGroupOp(
                Box::new(
                    OpAggGroup {
                        input,
                        grouping: a.grouping,
                        agg_field: a.agg_field,
                        ls: a.ls,
                        vs: a.vs,
                        cfg_name,
                    },
                ),
            )
        },
        Op::SortLimitOp(sort_limit) => {
            let s = *sort_limit;
            let input = name_op(s.input, namespace);
            let cfg_name = name_if_unnamed(s.cfg_name, "sortlimit", namespace);
            Op::SortLimitOp(
                Box::new(
                    OpSortLimit {
                        input,
                        order_columns: s.order_columns,
                        order: s.order,
                        limit: s.limit,
                        ls: s.ls,
                        vs: s.vs,
                        cfg_name,
                    },
                ),
            )
        },
        Op::SubqueryProjOp(subquery) => {
            let q = *subquery;
            let input = name_op(q.input, namespace);
            Op::SubqueryProjOp(Box::new(OpSubqueryProj { input, ls: q.ls, vs: q.vs }))
        },
    }
}

/// A text value.
fn text(s: &str) -> (res: ConfValue)
    ensures
        res@ == ConfSpec::Text(s@),
{
    ConfValue::Text(s.to_owned())
}

/// The list of the given items.
fn list(items: Vec<ConfValue>) -> (res: ConfValue)
    ensures
        res@ == ConfSpec::List(items_model(items@)),
{
    let res = ConfValue::List(items);
    assert(res@->List_0 =~= items_model(items@));
    res
}

/// The object of the given members.
fn object(members: Vec<(String, ConfValue)>) -> (res: ConfValue)
    ensures
        res@ == ConfSpec::Object(members_model(members@)),
{
    let res = ConfValue::Object(members);
    assert(res@->Object_0 =~= members_model(members@));
    res
}

/// Adds a member at the end.
fn add_member(members: &mut Vec<(String, ConfValue)>, key: &str, value: ConfValue)
    ensures
        members_model(final(members)@) == members_model(old(members)@).push((key@, value@)),
{
    let ghost before = members_model(members@);
    let ghost v = value@;
    members.push((key.to_owned(), value));
    assert(members_model(members@) =~= before.push((key@, v)));
}

/// No members.
fn no_members() -> (res: Vec<(String, ConfValue)>)
    ensures
        members_model(res@) == Seq::<(Seq<char>, ConfSpec)>::empty(),
{
    let res: Vec<(String, ConfValue)> = Vec::new();
    assert(members_model(res@) =~= Seq::<(Seq<char>, ConfSpec)>::empty());
    res
}

/// The reference to an operator in the tree of a configuration: its name, and
/// the references to its inputs. A pass-through stands for its input.
pub open spec fn spec_node(op: PlanSpec) -> ConfSpec
    recommends
        named(op),
    decreases op,
{
    let name = ("name"@, ConfSpec::Text(op.cfg_name.unwrap()));
    match op.node {
        NodeSpec::Scan { .. } => ConfSpec::Object(Seq::empty().push(name)),
        NodeSpec::Join { build, probe, .. } => ConfSpec::Object(
            Seq::empty().push(name).push(("build"@, spec_node(*build))).push(
                ("probe"@, spec_node(*probe)),
            ),
        ),
        NodeSpec::Filter { input, .. } => ConfSpec::Object(
            Seq::empty().push(name).push(("input"@, spec_node(*input))),
        ),
        NodeSpec::Projection { input, .. } => ConfSpec::Object(
            Seq::empty().push(name).push(("input"@, spec_node(*input))),
        ),
        NodeSpec::AggGroup { input, .. } => ConfSpec::Object(
            Seq::empty().push(name).push(("input"@, spec_node(*input))),
        ),
        NodeSpec::SortLimit { input, .. } => ConfSpec::Object(
            Seq::empty().push(name).push(("input"@, spec_node(*input))),
        ),
        NodeSpec::SubqueryProj { input } => spec_node(*input),
    }
}

/// The name of a named operator.
fn name_of(cfg_name: &Option<String>) -> (res: String)
    requires
        cfg_name is Some,
    ensures
        res@ == cfg_name.unwrap()@,
{
    match cfg_name {
        Some(n) => n.clone(),
        None => String::new(),
    }
}

/// The name of a named operator, as a value.
fn name_text(cfg_name: &Option<String>) -> (res: ConfValue)
    requires
        cfg_name is Some,
    ensures
        res@ == ConfSpec::Text(cfg_name.unwrap()@),
{
    ConfValue::Text(name_of(cfg_name))
}

/// The reference to a named operator with one input.
fn node_over(cfg_name: &Option<String>, input: &Op) -> (res: ConfValue)
    requires
        cfg_name is Some,
        named(input@),
    ensures
        res@ == ConfSpec::Object(
            Seq::empty().push(("name"@, ConfSpec::Text(cfg_name.unwrap()@))).push(
                ("input"@, spec_node(input@)),
            ),
        ),
    decreases input, 1nat,
{
    let mut members = no_members();
    add_member(&mut members, "name", name_text(cfg_name));
    add_member(&mut members, "input", node(input));
    object(members)
}

/// The reference to an operator in the tree of a configuration.
fn node(op: &Op) -> (res: ConfValue)
    requires
        named(op@),
    ensures
        res@ == spec_node(op@),
    decreases op, 0nat,
{
    match op {
        Op::ScanOp(o) => {
            let mut members = no_members();
            add_member(&mut members, "name", name_text(&o.cfg_name));
            object(members)
        },
        Op::JoinOp(o) => {
            let mut members = no_members();
            add_member(&mut members, "name", name_text(&o.cfg_name));
            add_member(&mut members, "build", node(&o.build));
            add_member(&mut members, "probe", node(&o.probe));
            object(members)
        },
        Op::FilterOp(o) => node_over(&o.cfg_name, &o.input),
        Op::ProjectionOp(o) => node_over(&o.cfg_name, &o.input),
        Op::AggGroupOp(o) => node_over(&o.cfg_name, &o.input),
        Op::SortLimitOp(o) => node_over(&o.cfg_name, &o.input),
        Op::SubqueryProjOp(o) => node(&o.input),
    }
}

/// The physical position of `col` among the columns `ls` of the node that
/// supplies it. There is none before schema resolution.
pub open spec fn spec_field_index(ls: Option<Seq<ColSpec>>, col: ColSpec) -> Result<u32, PlanError> {
    match ls {
        Some(l) => match l.index_of_first(col) {
            Some(i) => if i <= u32::MAX {
                Ok(i as u32)
            } else {
                Err(PlanError::ColumnNotFound)
            },
            None => Err(PlanError::ColumnNotFound),
        },
        None => Err(PlanError::ColumnNotFound),
    }
}

/// The physical positions of the first `k` columns of `cols`, as numbers.
pub open spec fn spec_field_indices(ls: Option<Seq<ColSpec>>, cols: Seq<ColSpec>, k: nat) -> Result<
    Seq<ConfSpec>,
    PlanError,
>
    decreases k,
{
    if k == 0 || k > cols.len() {
        Ok(Seq::empty())
    } else {
        match spec_field_indices(ls, cols, (k - 1) as nat) {
            Ok(found) => match spec_field_index(ls, cols[k - 1]) {
                Ok(i) => Ok(found.push(ConfSpec::Number(i as u64))),
                Err(e) => Err(e),
            },
            Err(e) => Err(e),
        }
    }
}

/// The physical positions of the first `k` columns of `cols`, each written as
/// `$` and the position.
pub open spec fn spec_source_indices(ls: Option<Seq<ColSpec>>, cols: Seq<ColSpec>, k: nat) -> Result<
    Seq<ConfSpec>,
    PlanError,
>
    decreases k,
{
    if k == 0 || k > cols.len() {
        Ok(Seq::empty())
    } else {
        match spec_source_indices(ls, cols, (k - 1) as nat) {
            Ok(found) => match spec_field_index(ls, cols[k - 1]) {
                Ok(i) => Ok(found.push(ConfSpec::Text("$"@ + decimal(i as nat)))),
                Err(e) => Err(e),
            },
            Err(e) => Err(e),
        }
    }
}

/// The positions among the first `k` columns of one side of a join at which
/// `col` stands, each written as the side's prefix and the position.
pub open spec fn spec_side_matches(cols: Seq<ColSpec>, col: ColSpec, prefix: Seq<char>, k: nat) -> Seq<
    ConfSpec,
>
    decreases k,
{
    if k == 0 || k > cols.len() {
        Seq::empty()
    } else {
        let before = spec_side_matches(cols, col, prefix, (k - 1) as nat);
        if cols[k - 1] == col {
            before.push(ConfSpec::Text(prefix + decimal((k - 1) as nat)))
        } else {
            before
        }
    }
}

/// Where a join takes its first `k` output columns from: for each, its
/// positions on the build side (`B$`), then those on the probe side (`P$`).
pub open spec fn spec_join_projection(
    own: Seq<ColSpec>,
    build: Seq<ColSpec>,
    probe: Seq<ColSpec>,
    k: nat,
) -> Seq<ConfSpec>
    decreases k,
{
    if k == 0 || k > own.len() {
        Seq::empty()
    } else {
        spec_join_projection(own, build, probe, (k - 1) as nat) + spec_side_matches(
            build,
            own[k - 1],
            "B$"@,
            build.len(),
        ) + spec_side_matches(probe, own[k - 1], "P$"@, probe.len())
    }
}

/// The hash function of a configuration entry, on `field` where one is given.
pub open spec fn spec_hash(field: Option<u32>) -> ConfSpec {
    let base = Seq::empty().push(("fn"@, ConfSpec::Text("modulo"@))).push(
        ("buckets"@, ConfSpec::Number(10000)),
    );
    match field {
        Some(f) => ConfSpec::Object(base.push(("field"@, ConfSpec::Number(f as u64)))),
        None => ConfSpec::Object(base),
    }
}

/// The kind of aggregation that a configuration names for an aggregate.
pub open spec fn spec_aggregate_kind(agg_field: ColSpec) -> Seq<char> {
    match agg_field {
        ColSpec::Aggregate { func: AggFunc::Count, .. } => "aggregate_count"@,
        _ => "aggregate_sum"@,
    }
}

/// The direction of a sort in a configuration; ascending where none was written.
pub open spec fn spec_order_name(order: Option<Order>) -> Seq<char> {
    match order {
        Some(Order::DESC) => "desc"@,
        _ => "asc"@,
    }
}

/// The names of the scalar types of a scan, as values.
pub open spec fn spec_schema_names(schema: Seq<MetaType>) -> Seq<ConfSpec> {
    schema.map_values(|t: MetaType| ConfSpec::Text(t.spec_preflight_str()))
}

/// The entry of an operator in a configuration: its kind and what the
/// execution engine needs to know of it, with every column given by its
/// physical position. A pass-through has no entry.
pub open spec fn spec_entry(op: PlanSpec) -> Result<ConfSpec, PlanError> {
    match op.node {
        NodeSpec::Scan { file, filetype, tab_name, schema } => Ok(
            ConfSpec::Object(
                Seq::empty().push(("type"@, ConfSpec::Text("scan"@))).push(
                    ("filetype"@, ConfSpec::Text(filetype)),
                ).push(("file"@, ConfSpec::Text(file))).push(
                    ("schema"@, ConfSpec::List(spec_schema_names(schema))),
                ),
            ),
        ),
        NodeSpec::Join { build, build_attr, probe, probe_attr } => {
            if build.ls is None || probe.ls is None || op.ls is None {
                Err(PlanError::ColumnNotFound)
            } else {
                match spec_field_index(build.ls, build_attr) {
                    Ok(b) => match spec_field_index(probe.ls, probe_attr) {
                        Ok(p) => Ok(
                            ConfSpec::Object(
                                Seq::empty().push(("type"@, ConfSpec::Text("hashjoin"@))).push(
                                    ("buildjattr"@, ConfSpec::Number(b as u64)),
                                ).push(("probejattr"@, ConfSpec::Number(p as u64))).push(
                                    ("hash"@, spec_hash(None)),
                                ).push(("tuplesperbucket"@, ConfSpec::Number(4))).push(
                                    (
                                        "projection_tuple"@,
                                        ConfSpec::List(
                                            spec_join_projection(
                                                op.ls.unwrap(),
                                                build.ls.unwrap(),
                                                probe.ls.unwrap(),
                                                op.ls.unwrap().len(),
                                            ),
                                        ),
                                    ),
                                ).push(
                                    (
                                        "threadgroups_tuple"@,
                                        ConfSpec::List(
                                            Seq::empty().push(
                                                ConfSpec::List(
                                                    Seq::empty().push(ConfSpec::Number(0)),
                                                ),
                                            ),
                                        ),
                                    ),
                                ).push(("allocpolicy"@, ConfSpec::Text("striped"@))),
                            ),
                        ),
                        Err(e) => Err(e),
                    },
                    Err(e) => Err(e),
                }
            }
        },
        NodeSpec::Filter { input, op: sym, field, value } => match spec_field_index(op.ls, field) {
            Ok(i) => Ok(
                ConfSpec::Object(
                    Seq::empty().push(("type"@, ConfSpec::Text("filter"@))).push(
                        ("op"@, ConfSpec::Text(sym)),
                    ).push(("field"@, ConfSpec::Number(i as u64))).push(
                        ("value"@, ConfSpec::Text(value)),
                    ),
                ),
            ),
            Err(e) => Err(e),
        },
        NodeSpec::Projection { input, projection } => match spec_source_indices(
            input.ls,
            projection,
            projection.len(),
        ) {
            Ok(sources) => Ok(
                ConfSpec::Object(
                    Seq::empty().push(("type"@, ConfSpec::Text("projection"@))).push(
                        ("projection"@, ConfSpec::List(sources)),
                    ),
                ),
            ),
            Err(e) => Err(e),
        },
        NodeSpec::AggGroup { input, grouping, agg_field } => match spec_field_indices(
            op.ls,
            grouping,
            grouping.len(),
        ) {
            Ok(fields) => match spec_field_index(op.ls, agg_field) {
                Ok(sum) => if grouping.len() == 0 {
                    Err(PlanError::MissingOrExtraAggregate)
                } else {
                    match spec_field_index(op.ls, grouping[0]) {
                        Ok(first) => Ok(
                            ConfSpec::Object(
                                Seq::empty().push(
                                    ("type"@, ConfSpec::Text(spec_aggregate_kind(agg_field))),
                                ).push(("fields_tuple"@, ConfSpec::List(fields))).push(
                                    ("sumfield"@, ConfSpec::Number(sum as u64)),
                                ).push(("hash"@, spec_hash(Some(first)))),
                            ),
                        ),
                        Err(e) => Err(e),
                    }
                },
                Err(e) => Err(e),
            },
            Err(e) => Err(e),
        },
        NodeSpec::SortLimit { input, order_columns, order, limit } => match spec_field_indices(
            op.ls,
            order_columns,
            order_columns.len(),
        ) {
            Ok(fields) => Ok(
                ConfSpec::Object(
                    Seq::empty().push(("type"@, ConfSpec::Text("sortlimit"@))).push(
                        ("fields_tuple"@, ConfSpec::List(fields)),
                    ).push(("order"@, ConfSpec::Text(spec_order_name(order)))).push(
                        ("limit"@, ConfSpec::Number(limit)),
                    ),
                ),
            ),
            Err(e) => Err(e),
        },
        NodeSpec::SubqueryProj { .. } => Err(PlanError::UnsupportedSqlConstruct),
    }
}

/// The members of a configuration after the entry of `op` has been set under
/// the name of `op`.
pub open spec fn spec_set_entry(op: PlanSpec, members: Seq<(Seq<char>, ConfSpec)>) -> Result<
    Seq<(Seq<char>, ConfSpec)>,
    PlanError,
>
    recommends
        op.cfg_name is Some,
{
    match spec_entry(op) {
        Ok(entry) => Ok(spec_set_member(members, op.cfg_name.unwrap(), entry)),
        Err(e) => Err(e),
    }
}

/// The members of a configuration after the entries of all operators of the
/// tree have been set: those of the inputs before that of the operator above
/// them, the build side before the probe side.
pub open spec fn spec_preflight(op: PlanSpec, members: Seq<(Seq<char>, ConfSpec)>) -> Result<
    Seq<(Seq<char>, ConfSpec)>,
    PlanError,
>
    recommends
        named(op),
    decreases op,
{
    match op.node {
        NodeSpec::Scan { .. } => spec_set_entry(op, members),
        NodeSpec::Join { build, probe, .. } => match spec_preflight(*build, members) {
            Ok(m1) => match spec_preflight(*probe, m1) {
                Ok(m2) => spec_set_entry(op, m2),
                Err(e) => Err(e),
            },
            Err(e) => Err(e),
        },
        NodeSpec::Filter { input, .. } => match spec_preflight(*input, members) {
            Ok(m) => spec_set_entry(op, m),
            Err(e) => Err(e),
        },
        NodeSpec::Projection { input, .. } => match spec_preflight(*input, members) {
            Ok(m) => spec_set_entry(op, m),
            Err(e) => Err(e),
        },
        NodeSpec::AggGroup { input, .. } => match spec_preflight(*input, members) {
            Ok(m) => spec_set_entry(op, m),
            Err(e) => Err(e),
        },
        NodeSpec::SortLimit { input, .. } => match spec_preflight(*input, members) {
            Ok(m) => spec_set_entry(op, m),
            Err(e) => Err(e),
        },
        NodeSpec::SubqueryProj { input } => spec_preflight(*input, members),
    }
}

/// The configuration of a plan: where the data lies, the size of the buffers,
/// the tree of the operators by name, and the entry of each operator.
pub open spec fn spec_plan_document(plan: PlanSpec, meta: MetadataSpec) -> Result<
    ConfSpec,
    PlanError,
> {
    let named_plan = spec_name_op(plan, Seq::empty()).0;
    let head = Seq::empty().push(("path"@, ConfSpec::Text(meta.path))).push(
        ("buffsize"@, ConfSpec::Number(meta.buffsize)),
    ).push(("treeroot"@, spec_node(named_plan)));
    match spec_preflight(named_plan, head) {
        Ok(members) => Ok(ConfSpec::Object(members)),
        Err(e) => Err(e),
    }
}

/// The value of the outcome of building a configuration value.
pub open spec fn conf_outcome_model(res: Result<ConfValue, PlanError>) -> Result<ConfSpec, PlanError> {
    match res {
        Ok(v) => Ok(v@),
        Err(e) => Err(e),
    }
}

/// The value of the outcome of building a list of configuration values.
pub open spec fn items_outcome_model(res: Result<Vec<ConfValue>, PlanError>) -> Result<
    Seq<ConfSpec>,
    PlanError,
> {
    match res {
        Ok(v) => Ok(items_model(v@)),
        Err(e) => Err(e),
    }
}

/// The physical position of `col` among the columns `ls`.
fn field_index(ls: &Option<LocalSchema>, col: &ColRef) -> (res: Result<u32, PlanError>)
    ensures
        res == spec_field_index(opt_schema_model(*ls), col@),
{
    match ls {
        Some(l) => match l.get_field_idx(col) {
            Ok(i) => Ok(i),
            Err(e) => Err(PlanError::ColumnNotFound),
        },
        None => Err(PlanError::ColumnNotFound),
    }
}

proof fn lemma_field_indices_fail(ls: Option<Seq<ColSpec>>, cols: Seq<ColSpec>, k: nat, n: nat)
    requires
        k <= n <= cols.len(),
        spec_field_indices(ls, cols, k) is Err,
    ensures
        spec_field_indices(ls, cols, n) == spec_field_indices(ls, cols, k),
    decreases n - k,
{
    if k < n {
        lemma_field_indices_fail(ls, cols, k, (n - 1) as nat);
    }
}

proof fn lemma_source_indices_fail(ls: Option<Seq<ColSpec>>, cols: Seq<ColSpec>, k: nat, n: nat)
    requires
        k <= n <= cols.len(),
        spec_source_indices(ls, cols, k) is Err,
    ensures
        spec_source_indices(ls, cols, n) == spec_source_indices(ls, cols, k),
    decreases n - k,
{
    if k < n {
        lemma_source_indices_fail(ls, cols, k, (n - 1) as nat);
    }
}

/// The physical positions of `cols` among the columns `ls`, as numbers.
fn field_indices(ls: &Option<LocalSchema>, cols: &Vec<ColRef>) -> (res: Result<
    Vec<ConfValue>,
    PlanError,
>)
    ensures
        items_outcome_model(res) == spec_field_indices(
            opt_schema_model(*ls),
            cols_model(cols@),
            cols.len() as nat,
        ),
{
    let ghost lsm = opt_schema_model(*ls);
    let ghost all = cols_model(cols@);
    let mut out: Vec<ConfValue> = Vec::new();
    let mut k: usize = 0;
    assert(items_model(out@) =~= Seq::<ConfSpec>::empty());
    while k < cols.len()
        invariant
            k <= cols.len(),
            lsm == opt_schema_model(*ls),
            all == cols_model(cols@),
            spec_field_indices(lsm, all, k as nat) == Ok::<Seq<ConfSpec>, PlanError>(
                items_model(out@),
            ),
        decreases cols.len() - k,
    {
        let ghost before = items_model(out@);
        match field_index(ls, &cols[k]) {
            Ok(i) => {
                out.push(ConfValue::Number(i as u64));
                assert(items_model(out@) =~= before.push(ConfSpec::Number(i as u64)));
            },
            Err(e) => {
                proof {
                    lemma_field_indices_fail(lsm, all, (k + 1) as nat, all.len());
                }
                return Err(e);
            },
        }
        k += 1;
    }
    Ok(out)
}

/// A position written after a prefix.
fn position_text(prefix: &str, i: u64) -> (res: ConfValue)
    ensures
        res@ == ConfSpec::Text(prefix@ + decimal(i as nat)),
{
    let mut t = prefix.to_owned();
    t.append(decimal_string(i).as_str());
    ConfValue::Text(t)
}

/// The physical positions of `cols` among the columns `ls`, each written as
/// `$` and the position.
fn source_indices(ls: &Option<LocalSchema>, cols: &Vec<ColRef>) -> (res: Result<
    Vec<ConfValue>,
    PlanError,
>)
    ensures
        items_outcome_model(res) == spec_source_indices(
            opt_schema_model(*ls),
            cols_model(cols@),
            cols.len() as nat,
        ),
{
    let ghost lsm = opt_schema_model(*ls);
    let ghost all = cols_model(cols@);
    let mut out: Vec<ConfValue> = Vec::new();
    let mut k: usize = 0;
    assert(items_model(out@) =~= Seq::<ConfSpec>::empty());
    while k < cols.len()
        invariant
            k <= cols.len(),
            lsm == opt_schema_model(*ls),
            all == cols_model(cols@),
            spec_source_indices(lsm, all, k as nat) == Ok::<Seq<ConfSpec>, PlanError>(
                items_model(out@),
            ),
        decreases cols.len() - k,
    {
        let ghost before = items_model(out@);
        match field_index(ls, &cols[k]) {
            Ok(i) => {
                let source = position_text("$", i as u64);
                out.push(source);
                assert(items_model(out@) =~= before.push(
                    ConfSpec::Text("$"@ + decimal(i as nat)),
                ));
            },
            Err(e) => {
                proof {
                    lemma_source_indices_fail(lsm, all, (k + 1) as nat, all.len());
                }
                return Err(e);
            },
        }
        k += 1;
    }
    Ok(out)
}

/// Adds to `out` the positions among `cols` at which `col` stands.
fn side_matches(cols: &Vec<ColRef>, col: &ColRef, prefix: &str, out: &mut Vec<ConfValue>)
    ensures
        items_model(final(out)@) == items_model(old(out)@) + spec_side_matches(
            cols_model(cols@),
            col@,
            prefix@,
            cols.len() as nat,
        ),
{
    let ghost start = items_model(out@);
    let ghost all = cols_model(cols@);
    let mut i: usize = 0;
    assert(items_model(out@) =~= start + spec_side_matches(all, col@, prefix@, 0));
    while i < cols.len()
        invariant
            i <= cols.len(),
            all == cols_model(cols@),
            start == items_model(old(out)@),
            items_model(out@) == start + spec_side_matches(all, col@, prefix@, i as nat),
        decreases cols.len() - i,
    {
        let ghost before = items_model(out@);
        if cols[i] == *col {
            let place = position_text(prefix, i as u64);
            out.push(place);
            assert(items_model(out@) =~= before.push(
                ConfSpec::Text(prefix@ + decimal(i as nat)),
            ));
        }
        assert(items_model(out@) =~= start + spec_side_matches(all, col@, prefix@, (i + 1) as nat));
        i += 1;
    }
}

/// Where a join takes its output columns from.
fn join_projection(own: &Vec<ColRef>, build: &Vec<ColRef>, probe: &Vec<ColRef>) -> (res: Vec<
    ConfValue,
>)
    ensures
        items_model(res@) == spec_join_projection(
            cols_model(own@),
            cols_model(build@),
            cols_model(probe@),
            own.len() as nat,
        ),
{
    let ghost o = cols_model(own@);
    let ghost b = cols_model(build@);
    let ghost p = cols_model(probe@);
    let mut out: Vec<ConfValue> = Vec::new();
    let mut k: usize = 0;
    assert(items_model(out@) =~= Seq::<ConfSpec>::empty());
    while k < own.len()
        invariant
            k <= own.len(),
            o == cols_model(own@),
            b == cols_model(build@),
            p == cols_model(probe@),
            items_model(out@) == spec_join_projection(o, b, p, k as nat),
        decreases own.len() - k,
    {
        side_matches(build, &own[k], "B$", &mut out);
        side_matches(probe, &own[k], "P$", &mut out);
        k += 1;
    }
    out
}

/// The hash function of a configuration entry.
fn hash(field: Option<u32>) -> (res: ConfValue)
    ensures
        res@ == spec_hash(field),
{
    let mut members = no_members();
    add_member(&mut members, "fn", text("modulo"));
    add_member(&mut members, "buckets", ConfValue::Number(10000));
    match field {
        Some(f) => {
            add_member(&mut members, "field", ConfValue::Number(f as u64));
        },
        None => {},
    }
    object(members)
}

/// The entry of a scan.
fn scan_entry(o: &OpScan) -> (res: ConfValue)
    ensures
        Ok::<ConfSpec, PlanError>(res@) == spec_entry(Op::ScanOp(Box::new(*o))@),
{
    let mut schema: Vec<ConfValue> = Vec::new();
    let mut i: usize = 0;
    while i < o.schema.len()
        invariant
            i <= o.schema.len(),
            schema.len() == i,
            forall|j: int|
                0 <= j < i ==> schema[j]@ == ConfSpec::Text(o.schema[j].spec_preflight_str()),
        decreases o.schema.len() - i,
    {
        schema.push(ConfValue::Text(o.schema[i].preflight_str()));
        i += 1;
    }
    assert(items_model(schema@) =~= spec_schema_names(o.schema@));
    let mut members = no_members();
    add_member(&mut members, "type", text("scan"));
    add_member(&mut members, "filetype", ConfValue::Text(o.filetype.clone()));
    add_member(&mut members, "file", ConfValue::Text(o.file.clone()));
    add_member(&mut members, "schema", list(schema));
    object(members)
}

/// The entry of a join.
fn join_entry(o: &OpJoin) -> (res: Result<ConfValue, PlanError>)
    ensures
        conf_outcome_model(res) == spec_entry(Op::JoinOp(Box::new(*o))@),
{
    let build_ls = o.build.local_schema();
    let probe_ls = o.probe.local_schema();
    let (buildcols, probecols, owncols) = match (&build_ls, &probe_ls, &o.ls) {
        (Some(b), Some(p), Some(own)) => (&b.columns, &p.columns, &own.columns),
        _ => {
            return Err(PlanError::ColumnNotFound);
        },
    };
    let projection = join_projection(owncols, buildcols, probecols);
    let buildjattr: u32 = match field_index(&build_ls, &o.build_join_attribute) {
        Ok(i) => i,
        Err(e) => {
            return Err(e);
        },
    };
    let probejattr: u32 = match field_index(&probe_ls, &o.probe_join_attribute) {
        Ok(i) => i,
        Err(e) => {
            return Err(e);
        },
    };
    let mut zero: Vec<ConfValue> = Vec::new();
    zero.push(ConfValue::Number(0));
    assert(items_model(zero@) =~= Seq::empty().push(ConfSpec::Number(0)));
    let mut groups: Vec<ConfValue> = Vec::new();
    groups.push(list(zero));
    assert(items_model(groups@) =~= Seq::empty().push(
        ConfSpec::List(Seq::empty().push(ConfSpec::Number(0))),
    ));
    let mut members = no_members();
    add_member(&mut members, "type", text("hashjoin"));
    add_member(&mut members, "buildjattr", ConfValue::Number(buildjattr as u64));
    add_member(&mut members, "probejattr", ConfValue::Number(probejattr as u64));
    add_member(&mut members, "hash", hash(None));
    add_member(&mut members, "tuplesperbucket", ConfValue::Number(4));
    add_member(&mut members, "projection_tuple", list(projection));
    add_member(&mut members, "threadgroups_tuple", list(groups));
    add_member(&mut members, "allocpolicy", text("striped"));
    Ok(object(members))
}

/// The entry of a filter.
fn filter_entry(o: &OpFilter) -> (res: Result<ConfValue, PlanError>)
    ensures
        conf_outcome_model(res) == spec_entry(Op::FilterOp(Box::new(*o))@),
{
    let field: u32 = match field_index(&o.ls, &o.field) {
        Ok(i) => i,
        Err(e) => {
            return Err(e);
        },
    };
    let mut members = no_members();
    add_member(&mut members, "type", text("filter"));
    add_member(&mut members, "op", ConfValue::Text(o.op.clone()));
    add_member(&mut members, "field", ConfValue::Number(field as u64));
    add_member(&mut members, "value", ConfValue::Text(o.value.clone()));
    Ok(object(members))
}

/// The entry of a projection.
fn projection_entry(o: &OpProjection) -> (res: Result<ConfValue, PlanError>)
    ensures
        conf_outcome_model(res) == spec_entry(Op::ProjectionOp(Box::new(*o))@),
{
    let input_ls = o.input.local_schema();
    let sources = match source_indices(&input_ls, &o.projection) {
        Ok(s) => s,
        Err(e) => {
            return Err(e);
        },
    };
    let mut members = no_members();
    add_member(&mut members, "type", text("projection"));
    add_member(&mut members, "projection", list(sources));
    Ok(object(members))
}

/// The entry of an aggregation.
fn agg_group_entry(o: &OpAggGroup) -> (res: Result<ConfValue, PlanError>)
    ensures
        conf_outcome_model(res) == spec_entry(Op::AggGroupOp(Box::new(*o))@),
{
    let fields = match field_indices(&o.ls, &o.grouping) {
        Ok(f) => f,
        Err(e) => {
            return Err(e);
        },
    };
    let sumfield_idx: u32 = match field_index(&o.ls, &o.agg_field) {
        Ok(i) => i,
        Err(e) => {
            return Err(e);
        },
    };
    if o.grouping.len() == 0 {
        return Err(PlanError::MissingOrExtraAggregate);
    }
    let hashfield_idx: u32 = match field_index(&o.ls, &o.grouping[0]) {
        Ok(i) => i,
        Err(e) => {
            return Err(e);
        },
    };
    let kind = match &o.agg_field {
        ColRef::AggregateRef { func: AggFunc::Count, source: _ } => "aggregate_count",
        _ => "aggregate_sum",
    };
    let mut members = no_members();
    add_member(&mut members, "type", text(kind));
    add_member(&mut members, "fields_tuple", list(fields));
    add_member(&mut members, "sumfield", ConfValue::Number(sumfield_idx as u64));
    add_member(&mut members, "hash", hash(Some(hashfield_idx)));
    Ok(object(members))
}

/// The entry of a sort/limit.
fn sort_limit_entry(o: &OpSortLimit) -> (res: Result<ConfValue, PlanError>)
    ensures
        conf_outcome_model(res) == spec_entry(Op::SortLimitOp(Box::new(*o))@),
{
    let fields = match field_indices(&o.ls, &o.order_columns) {
        Ok(f) => f,
        Err(e) => {
            return Err(e);
        },
    };
    let order = match o.order {
        Some(Order::DESC) => "desc",
        _ => "asc",
    };
    let mut members = no_members();
    add_member(&mut members, "type", text("sortlimit"));
    add_member(&mut members, "fields_tuple", list(fields));
    add_member(&mut members, "order", text(order));
    add_member(&mut members, "limit", ConfValue::Number(o.limit));
    Ok(object(members))
}

/// The value of the outcome of a step that fills a configuration.
pub open spec fn fill_outcome(res: Result<(), PlanError>, members: Seq<(String, ConfValue)>) -> Result<
    Seq<(Seq<char>, ConfSpec)>,
    PlanError,
> {
    match res {
        Ok(_) => Ok(members_model(members)),
        Err(e) => Err(e),
    }
}

/// Sets the entry of every operator of the tree among the members `global`.
fn preflight(op: &Op, global: &mut Vec<(String, ConfValue)>) -> (res: Result<(), PlanError>)
    requires
        named(op@),
    ensures
        fill_outcome(res, final(global)@) == spec_preflight(op@, members_model(old(global)@)),
    decreases op,
{
    match op {
        Op::ScanOp(o) => {
            set_member(global, name_of(&o.cfg_name), scan_entry(o));
            Ok(())
        },
        Op::JoinOp(o) => {
            match preflight(&o.build, global) {
                Ok(_) => {},
                Err(e) => {
                    return Err(e);
                },
            }
            match preflight(&o.probe, global) {
                Ok(_) => {},
                Err(e) => {
                    return Err(e);
                },
            }
            match join_entry(o) {
                Ok(entry) => {
                    set_member(global, name_of(&o.cfg_name), entry);
                    Ok(())
                },
                Err(e) => Err(e),
            }
        },
        Op::FilterOp(o) => {
            match preflight(&o.input, global) {
                Ok(_) => {},
                Err(e) => {
                    return Err(e);
                },
            }
            match filter_entry(o) {
                Ok(entry) => {
                    set_member(global, name_of(&o.cfg_name), entry);
                    Ok(())
                },
                Err(e) => Err(e),
            }
        },
        Op::ProjectionOp(o) => {
            match preflight(&o.input, global) {
                Ok(_) => {},
                Err(e) => {
                    return Err(e);
                },
            }
            match projection_entry(o) {
                Ok(entry) => {
                    set_member(global, name_of(&o.cfg_name), entry);
                    Ok(())
                },
                Err(e) => Err(e),
            }
        },
        Op::AggGroupOp(o) => {
            match preflight(&o.input, global) {
                Ok(_) => {},
                Err(e) => {
                    return Err(e);
                },
            }
            match agg_group_entry(o) {
                Ok(entry) => {
                    set_member(global, name_of(&o.cfg_name), entry);
                    Ok(())
                },
                Err(e) => Err(e),
            }
        },
        Op::SortLimitOp(o) => {
            match preflight(&o.input, global) {
                Ok(_) => {},
                Err(e) => {
                    return Err(e);
                },
            }
            match sort_limit_entry(o) {
                Ok(entry) => {
                    set_member(global, name_of(&o.cfg_name), entry);
                    Ok(())
                },
                Err(e) => Err(e),
            }
        },
        Op::SubqueryProjOp(o) => preflight(&o.input, global),
    }
}

/// The value of the outcome of writing a configuration.
pub open spec fn text_outcome_model(res: Result<String, PlanError>) -> Result<Seq<char>, PlanError> {
    match res {
        Ok(s) => Ok(s@),
        Err(e) => Err(e),
    }
}

/// The text of the configuration of a plan.
pub open spec fn spec_plan_to_json(plan: PlanSpec, meta: MetadataSpec) -> Result<
    Seq<char>,
    PlanError,
> {
    match spec_plan_document(plan, meta) {
        Ok(doc) => Ok(spec_render(doc)),
        Err(e) => Err(e),
    }
}

/// Writes the configuration of a plan for the execution engine, as compact
/// JSON text: every operator gets a name, the tree refers to the operators by
/// name, and each operator has an entry that addresses columns by physical
/// position. Succeeds on every plan that has been through schema resolution
/// and whose schemas are short enough for 32-bit positions; fails where a
/// column is missing that an operator refers to. The plan must have fewer
/// operators than 32 bits count.
pub fn plan_to_json(plan: Op, meta: &Metadata) -> (res: Result<String, PlanError>)
    requires
        node_count(plan@) <= u32::MAX,
    ensures
        text_outcome_model(res) == spec_plan_to_json(plan@, meta@),
        resolved(plan@) && addressable(plan@) ==> res is Ok,
{
    proof {
        if resolved(plan@) && addressable(plan@) {
            lemma_resolved_plan_is_written(plan@, meta@);
        }
    }
    let mut namespace = ConfigNamespace::new();
    proof {
        assert(handed_out(namespace@) == 0);
    }
    let plan = name_op(plan, &mut namespace);
    let mut data = no_members();
    add_member(&mut data, "path", ConfValue::Text(meta.path.clone()));
    add_member(&mut data, "buffsize", ConfValue::Number(meta.buffsize));
    add_member(&mut data, "treeroot", node(&plan));
    match preflight(&plan, &mut data) {
        Ok(_) => Ok(object(data).render()),
        Err(e) => Err(e),
    }
}

} // verus!
