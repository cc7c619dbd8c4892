use vstd::prelude::*;
use crate::error::PlanError;
use crate::ops::{spec_col_of_idents, ColRef, ColSpec, NodeSpec, Op, OpAggGroup, PlanSpec};
use crate::projection::{Projection, ProjectionSpec};
use crate::query::{ExprSpec, SelectSpec, SqlExpr, SqlSelect};
use crate::schema::{clone_cols, cols_model, VirtualSchema};

verus! {

/// What a query asks for by GROUP BY: the grouping columns and the one aggregate.
#[derive(Debug, PartialEq, Eq)]
pub struct AggGrouping {
    groups: Vec<ColRef>,
    agg_field: Option<ColRef>,
}

/// Mathematical value of an `AggGrouping`.
pub struct AggGroupingSpec {
    pub groups: Seq<ColSpec>,
    pub agg_field: Option<ColSpec>,
}

impl AggGroupingSpec {
    /// There are grouping columns exactly where there is an aggregate, and the
    /// aggregate is the result of an aggregate function.
    pub open spec fn wf(self) -> bool {
        &&& (self.groups.len() == 0) == (self.agg_field is None)
        &&& self.agg_field matches Some(a) ==> a is Aggregate
    }
}

impl View for AggGrouping {
    type V = AggGroupingSpec;

    closed spec fn view(&self) -> AggGroupingSpec {
        AggGroupingSpec {
            groups: cols_model(self.groups@),
            agg_field: match self.agg_field {
                Some(a) => Some(a@),
                None => None,
            },
        }
    }
}

/// The columns that the first `k` items of a GROUP BY list name: each item must
/// be a qualified identifier.
pub open spec fn spec_groups_upto(group_by: Seq<ExprSpec>, k: nat) -> Result<Seq<ColSpec>, PlanError>
    decreases k,
{
    if k == 0 || k > group_by.len() {
        Ok(Seq::empty())
    } else {
        match spec_groups_upto(group_by, (k - 1) as nat) {
            Ok(groups) => match group_by[k - 1] {
                ExprSpec::CompoundIdentifier(idents) => match spec_col_of_idents(idents) {
                    Ok(c) => Ok(groups.push(c)),
                    Err(e) => Err(e),
                },
                _ => Err(PlanError::UnsupportedSqlConstruct),
            },
            Err(e) => Err(e),
        }
    }
}

/// The one aggregate among the first `k` output columns, if there is any. Two
/// different aggregates are not supported.
pub open spec fn spec_aggregate_upto(items: Seq<ColSpec>, k: nat) -> Result<Option<ColSpec>, PlanError>
    decreases k,
{
    if k == 0 || k > items.len() {
        Ok(None)
    } else {
        match spec_aggregate_upto(items, (k - 1) as nat) {
            Ok(found) => if items[k - 1] is Aggregate {
                match found {
                    Some(a) => if a == items[k - 1] {
                        Ok(found)
                    } else {
                        Err(PlanError::MultipleAggregatesUnsupported)
                    },
                    None => Ok(Some(items[k - 1])),
                }
            } else {
                Ok(found)
            },
            Err(e) => Err(e),
        }
    }
}

/// What a SELECT block with the output columns `projection` asks for by GROUP
/// BY. There must be grouping columns exactly where there is an aggregate.
pub open spec fn spec_agg_grouping(select: SelectSpec, projection: ProjectionSpec) -> Result<
    AggGroupingSpec,
    PlanError,
> {
    match spec_groups_upto(select.group_by, select.group_by.len()) {
        Ok(groups) => match spec_aggregate_upto(projection.items, projection.items.len()) {
            Ok(agg_field) => if (groups.len() == 0) == (agg_field is None) {
                Ok(AggGroupingSpec { groups, agg_field })
            } else {
                Err(PlanError::MissingOrExtraAggregate)
            },
            Err(e) => Err(e),
        },
        Err(e) => Err(e),
    }
}

/// `op` itself where there is no grouping, else an aggregation above it that
/// exposes the grouping columns followed by the aggregate.
pub open spec fn spec_group_wrap(g: AggGroupingSpec, op: PlanSpec) -> PlanSpec {
    if g.groups.len() == 0 || g.agg_field is None {
        op
    } else {
        PlanSpec {
            node: NodeSpec::AggGroup {
                input: Box::new(op),
                grouping: g.groups,
                agg_field: g.agg_field.unwrap(),
            },
            ls: None,
            vs: g.groups.push(g.agg_field.unwrap()),
            cfg_name: None,
        }
    }
}

proof fn lemma_groups_fail(group_by: Seq<ExprSpec>, k: nat, n: nat)
    requires
        k <= n <= group_by.len(),
        spec_groups_upto(group_by, k) is Err,
    ensures
        spec_groups_upto(group_by, n) == spec_groups_upto(group_by, k),
    decreases n - k,
{
    if k < n {
        lemma_groups_fail(group_by, k, (n - 1) as nat);
    }
}

proof fn lemma_aggregate_fails(items: Seq<ColSpec>, k: nat, n: nat)
    requires
        k <= n <= items.len(),
        spec_aggregate_upto(items, k) is Err,
    ensures
        spec_aggregate_upto(items, n) == spec_aggregate_upto(items, k),
    decreases n - k,
{
    if k < n {
        lemma_aggregate_fails(items, k, (n - 1) as nat);
    }
}

/// The one aggregate that is found among output columns is an aggregate.
proof fn lemma_aggregate_is_aggregate(items: Seq<ColSpec>, k: nat)
    requires
        k <= items.len(),
    ensures
        spec_aggregate_upto(items, k) matches Ok(Some(a)) ==> a is Aggregate,
    decreases k,
{
    if k > 0 {
        lemma_aggregate_is_aggregate(items, (k - 1) as nat);
    }
}

impl AggGrouping {
    #[verifier::type_invariant]
    spec fn consistent(&self) -> bool {
        &&& (self.groups@.len() == 0) == (self.agg_field is None)
        &&& self.agg_field matches Some(a) ==> a@ is Aggregate
    }

    /// What the SELECT block asks for by GROUP BY, given its output columns.
    pub fn from_query(query: &SqlSelect, projection: &Projection) -> (res: Result<
        AggGrouping,
        PlanError,
    >)
        ensures
            match res {
                Ok(g) => spec_agg_grouping(query@, projection@) == Ok::<AggGroupingSpec, PlanError>(
                    g@,
                ) && g@.wf(),
                Err(e) => spec_agg_grouping(query@, projection@) == Err::<
                    AggGroupingSpec,
                    PlanError,
                >(e),
            },
    {
        let ghost group_by = query@.group_by;
        let ghost items = projection@.items;
        let mut grouping_items: Vec<ColRef> = Vec::new();
        let mut k: usize = 0;
        assert(cols_model(grouping_items@) =~= Seq::<ColSpec>::empty());
        while k < query.group_by.len()
            invariant
                k <= query.group_by.len(),
                group_by == query@.group_by,
                spec_groups_upto(group_by, k as nat) == Ok::<Seq<ColSpec>, PlanError>(
                    cols_model(grouping_items@),
                ),
            decreases query.group_by.len() - k,
        {
            let ghost before = cols_model(grouping_items@);
            assert(group_by[k as int] == query.group_by[k as int]@);
            let col = match &query.group_by[k] {
                SqlExpr::CompoundIdentifier(idents) => match ColRef::from_idents(
                    idents.as_slice(),
                ) {
                    Ok(c) => c,
                    Err(e) => {
                        proof {
                            lemma_groups_fail(group_by, (k + 1) as nat, group_by.len());
                        }
                        return Err(e);
                    },
                },
                _ => {
                    proof {
                        lemma_groups_fail(group_by, (k + 1) as nat, group_by.len());
                    }
                    return Err(PlanError::UnsupportedSqlConstruct);
                },
            };
            assert(cols_model(grouping_items@.push(col)) =~= before.push(col@));
            grouping_items.push(col);
            k += 1;
        }
        let mut agg_field: Option<ColRef> = None;
        let mut i: usize = 0;
        while i < projection.items.len()
            invariant
                i <= projection.items.len(),
                items == projection@.items,
                group_by == query@.group_by,
                spec_groups_upto(group_by, group_by.len()) is Ok,
                spec_aggregate_upto(items, i as nat) == Ok::<Option<ColSpec>, PlanError>(
                    match agg_field {
                        Some(a) => Some(a@),
                        None => None,
                    },
                ),
            decreases projection.items.len() - i,
        {
            let proj_obj = &projection.items[i];
            assert(items[i as int] == proj_obj@);
            match proj_obj {
                ColRef::AggregateRef { .. } => {
                    let differs = match &agg_field {
                        Some(a) => !(*a == *proj_obj),
                        None => false,
                    };
                    if differs {
                        proof {
                            lemma_aggregate_fails(items, (i + 1) as nat, items.len());
                        }
                        return Err(PlanError::MultipleAggregatesUnsupported);
                    }
                    if agg_field.is_none() {
                        agg_field = Some(proj_obj.clone());
                    }
                },
                ColRef::TableRef { .. } => {},
            }
            i += 1;
        }
        proof {
            lemma_aggregate_is_aggregate(items, items.len());
        }
        if (grouping_items.len() == 0) != agg_field.is_none() {
            return Err(PlanError::MissingOrExtraAggregate);
        }
        Ok(AggGrouping { groups: grouping_items, agg_field })
    }

    /// Wraps `op` in an aggregation; returns `op` itself where the query has no
    /// grouping columns.
    pub fn apply_agg_grouping_ops(&self, op: Op) -> (res: Op)
        ensures
            res@ == spec_group_wrap(self@, op@),
    {
        proof {
            use_type_invariant(self);
        }
        if self.groups.len() == 0 {
            return op;
        }
        match &self.agg_field {
            Some(agg_field) => {
                let mut vs = clone_cols(self.groups.as_slice());
                vs.push(agg_field.clone());
                assert(cols_model(vs@) =~= cols_model(self.groups@).push(agg_field@));
                let vs = VirtualSchema::from_custom(vs);
                Op::AggGroupOp(
                    Box::new(
                        OpAggGroup {
                            input: op,
                            grouping: clone_cols(self.groups.as_slice()),
                            agg_field: agg_field.clone(),
                            ls: None,
                            vs,
                            cfg_name: None,
                        },
                    ),
                )
            },
            None => op,
        }
    }

    /// Whether the query asks for an aggregate.
    pub fn has_aggregate(&self) -> (res: bool)
        ensures
            res == self@.agg_field is Some,
    {
        self.agg_field.is_some()
    }
}

} // verus!
