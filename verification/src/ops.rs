use vstd::prelude::*;
use vstd::std_specs::cmp::PartialEqSpecImpl;
use crate::error::PlanError;
use crate::metadata::MetaType;
use crate::schema::{
    clone_cols, cols_model, opt_schema_model, opt_string_model, LocalSchema, VirtualSchema,
};

verus! {

/// Aggregate functions that a projection item may apply to a column.
#[derive(Debug, Clone, Copy, PartialEq, Eq, Hash, Structural)]
pub enum AggFunc {
    Sum,
    Count,
}

/// The lower-case form of a string, as `str::to_lowercase` of the standard library gives it.
pub uninterp spec fn lowercase(s: Seq<char>) -> Seq<char>;

/// Calls `str::to_lowercase`, which maps each character to its Unicode lower
/// case. The contract only names the result: it is a function of the argument.
#[verifier::external_body]
fn to_lowercase(s: &str) -> (res: String)
    ensures
        res@ == lowercase(s@),
{
    s.to_lowercase()
}

/// The aggregate function that a name in lower case stands for.
pub open spec fn spec_agg_func(lower: Seq<char>) -> Option<AggFunc> {
    if lower == "sum"@ {
        Some(AggFunc::Sum)
    } else if lower == "count"@ {
        Some(AggFunc::Count)
    } else {
        None
    }
}

impl AggFunc {
    /// The aggregate function that `lower`, a name in lower case, stands for.
    pub fn from_lowercase(lower: &str) -> (res: Option<AggFunc>)
        ensures
            res == spec_agg_func(lower@),
    {
        let name = lower.to_owned();
        if name == "sum".to_owned() {
            Some(AggFunc::Sum)
        } else if name == "count".to_owned() {
            Some(AggFunc::Count)
        } else {
            None
        }
    }

    /// The aggregate function that `name` stands for, whatever its case.
    pub fn parse_agg_func(name: &str) -> (res: Option<AggFunc>)
        ensures
            res == spec_agg_func(lowercase(name@)),
    {
        let lower = to_lowercase(name);
        AggFunc::from_lowercase(lower.as_str())
    }
}

/// Mathematical value of a column reference.
pub enum ColSpec {
    Table { table: Seq<char>, column: Seq<char> },
    Aggregate { func: AggFunc, source: Box<ColSpec> },
}

/// A logical column: a column of a base relation, or an aggregate over another column.
#[derive(Debug, Hash)]
pub enum ColRef {
    TableRef { table: String, column: String },
    AggregateRef { func: AggFunc, source: Box<ColRef> },
}

impl ColRef {
    /// The mathematical value of this column reference.
    pub open spec fn model(&self) -> ColSpec
        decreases self,
    {
        match self {
            ColRef::TableRef { table, column } => ColSpec::Table { table: table@, column: column@ },
            ColRef::AggregateRef { func, source } => ColSpec::Aggregate {
                func: *func,
                source: Box::new(source.model()),
            },
        }
    }
}

/// The column that a qualified identifier names: its two parts are the table
/// alias and the column name.
pub open spec fn spec_col_of_idents(idents: Seq<Seq<char>>) -> Result<ColSpec, PlanError> {
    if idents.len() == 2 {
        Ok(ColSpec::Table { table: idents[0], column: idents[1] })
    } else {
        Err(PlanError::UnsupportedSqlConstruct)
    }
}

/// The views of a list of strings.
pub open spec fn strings_model(strings: Seq<String>) -> Seq<Seq<char>> {
    strings.map_values(|s: String| s@)
}

/// The value of the outcome of a conversion to a column reference.
pub open spec fn col_outcome_model(res: Result<ColRef, PlanError>) -> Result<ColSpec, PlanError> {
    match res {
        Ok(c) => Ok(c@),
        Err(e) => Err(e),
    }
}

impl ColRef {
    /// The column that the qualified identifier `idents` names. An identifier
    /// of one part, or of more than two, is not supported.
    pub fn from_idents(idents: &[String]) -> (res: Result<ColRef, PlanError>)
        ensures
            col_outcome_model(res) == spec_col_of_idents(strings_model(idents@)),
    {
        if idents.len() != 2 {
            return Err(PlanError::UnsupportedSqlConstruct);
        }
        Ok(ColRef::TableRef { table: idents[0].clone(), column: idents[1].clone() })
    }
}

impl View for ColRef {
    type V = ColSpec;

    open spec fn view(&self) -> ColSpec {
        self.model()
    }
}

impl Clone for ColRef {
    fn clone(&self) -> (res: ColRef)
        ensures
            res@ == self@,
        decreases self,
    {
        match self {
            ColRef::TableRef { table, column } => ColRef::TableRef {
                table: table.clone(),
                column: column.clone(),
            },
            ColRef::AggregateRef { func, source } => ColRef::AggregateRef {
                func: *func,
                source: Box::new((&**source).clone()),
            },
        }
    }
}

impl PartialEq for ColRef {
    fn eq(&self, other: &ColRef) -> (res: bool)
        decreases self,
    {
        match (self, other) {
            (
                ColRef::TableRef { table: t1, column: c1 },
                ColRef::TableRef { table: t2, column: c2 },
            ) => *t1 == *t2 && *c1 == *c2,
            (
                ColRef::AggregateRef { func: f1, source: s1 },
                ColRef::AggregateRef { func: f2, source: s2 },
            ) => *f1 == *f2 && (&**s1).eq(&**s2),
            _ => false,
        }
    }
}

impl PartialEqSpecImpl for ColRef {
    open spec fn obeys_eq_spec() -> bool {
        true
    }

    open spec fn eq_spec(&self, other: &ColRef) -> bool {
        self@ == other@
    }
}

impl Eq for ColRef {}

/// Direction of an ordering.
#[allow(clippy::upper_case_acronyms)]
#[derive(Debug, Clone, Copy, PartialEq, Eq, Structural)]
pub enum Order {
    ASC,
    DESC,
}

/// A physical operator; each node exclusively owns its inputs.
#[derive(Debug, PartialEq, Eq)]
pub enum Op {
    ScanOp(Box<OpScan>),
    JoinOp(Box<OpJoin>),
    FilterOp(Box<OpFilter>),
    ProjectionOp(Box<OpProjection>),
    AggGroupOp(Box<OpAggGroup>),
    SortLimitOp(Box<OpSortLimit>),
    SubqueryProjOp(Box<OpSubqueryProj>),
}

/// Reads every column of a stored table.
#[derive(Debug, PartialEq, Eq)]
pub struct OpScan {
    pub file: String,
    pub filetype: String,
    pub tab_name: String,
    pub schema: Vec<MetaType>,
    pub ls: Option<LocalSchema>,
    pub vs: VirtualSchema,
    pub cfg_name: Option<String>,
}

/// Hash join of a build side and a probe side on one pair of columns.
#[derive(Debug, PartialEq, Eq)]
pub struct OpJoin {
    pub build: Op,
    pub build_join_attribute: ColRef,
    pub probe: Op,
    pub probe_join_attribute: ColRef,
    pub ls: Option<LocalSchema>,
    pub vs: VirtualSchema,
    pub cfg_name: Option<String>,
}

/// Keeps the rows whose `field` compares to the literal `value` under the comparator `op`.
#[derive(Debug, PartialEq, Eq)]
pub struct OpFilter {
    pub input: Op,
    pub op: String,
    pub field: ColRef,
    pub value: String,
    pub ls: Option<LocalSchema>,
    pub vs: VirtualSchema,
    pub cfg_name: Option<String>,
}

/// Reorders and trims the columns of its input to `projection`.
#[derive(Debug, PartialEq, Eq)]
pub struct OpProjection {
    pub input: Op,
    pub projection: Vec<ColRef>,
    pub ls: Option<LocalSchema>,
    pub vs: VirtualSchema,
    pub cfg_name: Option<String>,
}

/// Groups by `grouping` and computes the one aggregate `agg_field`.
#[derive(Debug, PartialEq, Eq)]
pub struct OpAggGroup {
    pub input: Op,
    pub grouping: Vec<ColRef>,
    pub agg_field: ColRef,
    pub ls: Option<LocalSchema>,
    pub vs: VirtualSchema,
    pub cfg_name: Option<String>,
}

/// Orders by `order_columns` and keeps at most `limit` rows.
#[derive(Debug, PartialEq, Eq)]
pub struct OpSortLimit {
    pub input: Op,
    pub order_columns: Vec<ColRef>,
    pub order: Option<Order>,
    pub limit: u64,
    pub ls: Option<LocalSchema>,
    pub vs: VirtualSchema,
    pub cfg_name: Option<String>,
}

/// Pass-through node that only carries schemas handed to the optimizer.
#[derive(Debug, PartialEq, Eq)]
pub struct OpSubqueryProj {
    pub input: Op,
    pub ls: Option<LocalSchema>,
    pub vs: VirtualSchema,
}

/// Mathematical value of an operator tree: the fields every node has, and
/// what is particular to its kind.
pub struct PlanSpec {
    pub node: NodeSpec,
    pub ls: Option<Seq<ColSpec>>,
    pub vs: Seq<ColSpec>,
    pub cfg_name: Option<Seq<char>>,
}

/// The kind of a node of a `PlanSpec`, with its parameters and inputs.
pub enum NodeSpec {
    Scan { file: Seq<char>, filetype: Seq<char>, tab_name: Seq<char>, schema: Seq<MetaType> },
    Join { build: Box<PlanSpec>, build_attr: ColSpec, probe: Box<PlanSpec>, probe_attr: ColSpec },
    Filter { input: Box<PlanSpec>, op: Seq<char>, field: ColSpec, value: Seq<char> },
    Projection { input: Box<PlanSpec>, projection: Seq<ColSpec> },
    AggGroup { input: Box<PlanSpec>, grouping: Seq<ColSpec>, agg_field: ColSpec },
    SortLimit {
        input: Box<PlanSpec>,
        order_columns: Seq<ColSpec>,
        order: Option<Order>,
        limit: u64,
    },
    SubqueryProj { input: Box<PlanSpec> },
}

impl Op {
    /// The mathematical value of this operator tree.
    pub open spec fn model(&self) -> PlanSpec
        decreases self,
    {
        match self {
            Op::ScanOp(o) => PlanSpec {
                node: NodeSpec::Scan {
                    file: o.file@,
                    filetype: o.filetype@,
                    tab_name: o.tab_name@,
                    schema: o.schema@,
                },
                ls: opt_schema_model(o.ls),
                vs: o.vs@,
                cfg_name: opt_string_model(o.cfg_name),
            },
            Op::JoinOp(o) => PlanSpec {
                node: NodeSpec::Join {
                    build: Box::new(o.build.model()),
                    build_attr: o.build_join_attribute@,
                    probe: Box::new(o.probe.model()),
                    probe_attr: o.probe_join_attribute@,
                },
                ls: opt_schema_model(o.ls),
                vs: o.vs@,
                cfg_name: opt_string_model(o.cfg_name),
            },
            Op::FilterOp(o) => PlanSpec {
                node: NodeSpec::Filter {
                    input: Box::new(o.input.model()),
                    op: o.op@,
                    field: o.field@,
                    value: o.value@,
                },
                ls: opt_schema_model(o.ls),
                vs: o.vs@,
                cfg_name: opt_string_model(o.cfg_name),
            },
            Op::ProjectionOp(o) => PlanSpec {
                node: NodeSpec::Projection {
                    input: Box::new(o.input.model()),
                    projection: cols_model(o.projection@),
                },
                ls: opt_schema_model(o.ls),
                vs: o.vs@,
                cfg_name: opt_string_model(o.cfg_name),
            },
            Op::AggGroupOp(o) => PlanSpec {
                node: NodeSpec::AggGroup {
                    input: Box::new(o.input.model()),
                    grouping: cols_model(o.grouping@),
                    agg_field: o.agg_field@,
                },
                ls: opt_schema_model(o.ls),
                vs: o.vs@,
                cfg_name: opt_string_model(o.cfg_name),
            },
            Op::SortLimitOp(o) => PlanSpec {
                node: NodeSpec::SortLimit {
                    input: Box::new(o.input.model()),
                    order_columns: cols_model(o.order_columns@),
                    order: o.order,
                    limit: o.limit,
                },
                ls: opt_schema_model(o.ls),
                vs: o.vs@,
                cfg_name: opt_string_model(o.cfg_name),
            },
            Op::SubqueryProjOp(o) => PlanSpec {
                node: NodeSpec::SubqueryProj { input: Box::new(o.input.model()) },
                ls: opt_schema_model(o.ls),
                vs: o.vs@,
                cfg_name: None,
            },
        }
    }
}

impl View for Op {
    type V = PlanSpec;

    open spec fn view(&self) -> PlanSpec {
        self.model()
    }
}

/// Copies a string that may be absent.
pub fn clone_opt_string(s: &Option<String>) -> (res: Option<String>)
    ensures
        opt_string_model(res) == opt_string_model(*s),
{
    match s {
        Some(t) => Some(t.clone()),
        None => None,
    }
}

/// Copies a list of scalar types.
fn clone_types(types: &Vec<MetaType>) -> (res: Vec<MetaType>)
    ensures
        res@ == types@,
{
    let mut res: Vec<MetaType> = Vec::new();
    let mut i: usize = 0;
    while i < types.len()
        invariant
            i <= types.len(),
            res.len() == i,
            forall|j: int| 0 <= j < i ==> res[j] == types[j],
        decreases types.len() - i,
    {
        res.push(types[i]);
        i += 1;
    }
    assert(res@ =~= types@);
    res
}

impl Clone for Op {
    fn clone(&self) -> (res: Op)
        ensures
            res@ == self@,
        decreases self,
    {
        match self {
            Op::ScanOp(o) => Op::ScanOp(
                Box::new(
                    OpScan {
                        file: o.file.clone(),
                        filetype: o.filetype.clone(),
                        tab_name: o.tab_name.clone(),
                        schema: clone_types(&o.schema),
                        ls: clone_opt_schema(&o.ls),
                        vs: VirtualSchema { columns: clone_cols(o.vs.columns.as_slice()) },
                        cfg_name: clone_opt_string(&o.cfg_name),
                    },
                ),
            ),
            Op::JoinOp(o) => Op::JoinOp(
                Box::new(
                    OpJoin {
                        build: o.build.clone(),
                        build_join_attribute: o.build_join_attribute.clone(),
                        probe: o.probe.clone(),
                        probe_join_attribute: o.probe_join_attribute.clone(),
                        ls: clone_opt_schema(&o.ls),
                        vs: VirtualSchema { columns: clone_cols(o.vs.columns.as_slice()) },
                        cfg_name: clone_opt_string(&o.cfg_name),
                    },
                ),
            ),
            Op::FilterOp(o) => Op::FilterOp(
                Box::new(
                    OpFilter {
                        input: o.input.clone(),
                        op: o.op.clone(),
                        field: o.field.clone(),
                        value: o.value.clone(),
                        ls: clone_opt_schema(&o.ls),
                        vs: VirtualSchema { columns: clone_cols(o.vs.columns.as_slice()) },
                        cfg_name: clone_opt_string(&o.cfg_name),
                    },
                ),
            ),
            Op::ProjectionOp(o) => Op::ProjectionOp(
                Box::new(
                    OpProjection {
                        input: o.input.clone(),
                        projection: clone_cols(o.projection.as_slice()),
                        ls: clone_opt_schema(&o.ls),
                        vs: VirtualSchema { columns: clone_cols(o.vs.columns.as_slice()) },
                        cfg_name: clone_opt_string(&o.cfg_name),
                    },
                ),
            ),
            Op::AggGroupOp(o) => Op::AggGroupOp(
                Box::new(
                    OpAggGroup {
                        input: o.input.clone(),
                        grouping: clone_cols(o.grouping.as_slice()),
                        agg_field: o.agg_field.clone(),
                        ls: clone_opt_schema(&o.ls),
                        vs: VirtualSchema { columns: clone_cols(o.vs.columns.as_slice()) },
                        cfg_name: clone_opt_string(&o.cfg_name),
                    },
                ),
            ),
            Op::SortLimitOp(o) => Op::SortLimitOp(
                Box::new(
                    OpSortLimit {
                        input: o.input.clone(),
                        order_columns: clone_cols(o.order_columns.as_slice()),
                        order: o.order,
                        limit: o.limit,
                        ls: clone_opt_schema(&o.ls),
                        vs: VirtualSchema { columns: clone_cols(o.vs.columns.as_slice()) },
                        cfg_name: clone_opt_string(&o.cfg_name),
                    },
                ),
            ),
            Op::SubqueryProjOp(o) => Op::SubqueryProjOp(
                Box::new(
                    OpSubqueryProj {
                        input: o.input.clone(),
                        ls: clone_opt_schema(&o.ls),
                        vs: VirtualSchema { columns: clone_cols(o.vs.columns.as_slice()) },
                    },
                ),
            ),
        }
    }
}

/// Copies a local schema that may not have been assigned yet.
pub fn clone_opt_schema(ls: &Option<LocalSchema>) -> (res: Option<LocalSchema>)
    ensures
        opt_schema_model(res) == opt_schema_model(*ls),
{
    match ls {
        Some(l) => Some(LocalSchema { columns: clone_cols(l.columns.as_slice()) }),
        None => None,
    }
}

impl Op {
    /// The columns logically reachable from this node.
    pub fn virtual_schema(&self) -> (res: VirtualSchema)
        ensures
            res@ == self@.vs,
    {
        match self {
            Op::ScanOp(op) => VirtualSchema { columns: clone_cols(op.vs.columns.as_slice()) },
            Op::FilterOp(op) => VirtualSchema { columns: clone_cols(op.vs.columns.as_slice()) },
            Op::JoinOp(op) => VirtualSchema { columns: clone_cols(op.vs.columns.as_slice()) },
            Op::ProjectionOp(op) => VirtualSchema { columns: clone_cols(op.vs.columns.as_slice()) },
            Op::AggGroupOp(op) => VirtualSchema { columns: clone_cols(op.vs.columns.as_slice()) },
            Op::SortLimitOp(op) => VirtualSchema { columns: clone_cols(op.vs.columns.as_slice()) },
            Op::SubqueryProjOp(op) => VirtualSchema { columns: clone_cols(op.vs.columns.as_slice()) },
        }
    }

    /// The physical output columns of this node, once they have been assigned.
    pub fn local_schema(&self) -> (res: Option<LocalSchema>)
        ensures
            opt_schema_model(res) == self@.ls,
    {
        match self {
            Op::ScanOp(op) => clone_opt_schema(&op.ls),
            Op::FilterOp(op) => clone_opt_schema(&op.ls),
            Op::JoinOp(op) => clone_opt_schema(&op.ls),
            Op::ProjectionOp(op) => clone_opt_schema(&op.ls),
            Op::AggGroupOp(op) => clone_opt_schema(&op.ls),
            Op::SortLimitOp(op) => clone_opt_schema(&op.ls),
            Op::SubqueryProjOp(op) => clone_opt_schema(&op.ls),
        }
    }
}

} // verus!
