use vstd::prelude::*;
use crate::error::PlanError;
use crate::ops::{ColRef, ColSpec, NodeSpec, Op, OpSortLimit, Order, PlanSpec};
use crate::projection::{convert_expr, spec_convert_expr};
use crate::query::{ExprSpec, OrderBySpec, QuerySpec, SqlExpr, SqlQuery};
use crate::schema::{clone_cols, cols_model};
use crate::text::{parse_u64, spec_parse_u64};

verus! {

/// The limit that stands for "no limit".
pub const NO_LIMIT: u64 = 2147483647;

/// What a query asks for by ORDER BY and LIMIT.
#[derive(Debug, PartialEq, Eq)]
pub struct SortLimit {
    order_columns: Vec<ColRef>,
    order: Option<Order>,
    limit: u64,
}

/// Mathematical value of a `SortLimit`.
pub struct SortLimitSpec {
    pub order_columns: Seq<ColSpec>,
    pub order: Option<Order>,
    pub limit: u64,
}

impl View for SortLimit {
    type V = SortLimitSpec;

    closed spec fn view(&self) -> SortLimitSpec {
        SortLimitSpec {
            order_columns: cols_model(self.order_columns@),
            order: self.order,
            limit: self.limit,
        }
    }
}

/// The direction that a written `ASC` (`true`) or `DESC` (`false`) stands for.
pub open spec fn spec_direction(asc: bool) -> Order {
    if asc {
        Order::ASC
    } else {
        Order::DESC
    }
}

/// The columns of the first `k` items of an ORDER BY list, and the first
/// direction written among them: one direction holds for all columns.
pub open spec fn spec_order_upto(order_by: Seq<OrderBySpec>, k: nat) -> Result<
    (Seq<ColSpec>, Option<Order>),
    PlanError,
>
    decreases k,
{
    if k == 0 || k > order_by.len() {
        Ok((Seq::empty(), None))
    } else {
        match spec_order_upto(order_by, (k - 1) as nat) {
            Ok((cols, order)) => match spec_convert_expr(order_by[k - 1].expr) {
                Ok(c) => Ok(
                    (
                        cols.push(c),
                        match order {
                            Some(o) => Some(o),
                            None => match order_by[k - 1].asc {
                                Some(asc) => Some(spec_direction(asc)),
                                None => None,
                            },
                        },
                    ),
                ),
                Err(e) => Err(e),
            },
            Err(e) => Err(e),
        }
    }
}

/// The number of rows that a LIMIT clause asks for: it must be a numeral.
pub open spec fn spec_limit(limit: Option<ExprSpec>) -> Result<u64, PlanError> {
    match limit {
        None => Ok(NO_LIMIT),
        Some(ExprSpec::Number(text)) => match spec_parse_u64(text) {
            Some(v) => Ok(v),
            None => Err(PlanError::UnsupportedSqlConstruct),
        },
        Some(_) => Err(PlanError::UnsupportedSqlConstruct),
    }
}

/// What a query asks for by ORDER BY and LIMIT.
pub open spec fn spec_sort_limit(query: QuerySpec) -> Result<SortLimitSpec, PlanError> {
    match spec_order_upto(query.order_by, query.order_by.len()) {
        Ok((order_columns, order)) => match spec_limit(query.limit) {
            Ok(limit) => Ok(SortLimitSpec { order_columns, order, limit }),
            Err(e) => Err(e),
        },
        Err(e) => Err(e),
    }
}

/// `op` itself where neither an order nor a limit is asked for, else a
/// sort/limit node above it that exposes what `op` exposes.
pub open spec fn spec_sort_wrap(sl: SortLimitSpec, op: PlanSpec) -> PlanSpec {
    if sl.limit == NO_LIMIT && sl.order_columns.len() == 0 {
        op
    } else {
        PlanSpec {
            node: NodeSpec::SortLimit {
                input: Box::new(op),
                order_columns: sl.order_columns,
                order: sl.order,
                limit: sl.limit,
            },
            ls: None,
            vs: op.vs,
            cfg_name: None,
        }
    }
}

/// Once an item has failed to convert, those after it change nothing.
proof fn lemma_order_fails(order_by: Seq<OrderBySpec>, k: nat, n: nat)
    requires
        k <= n <= order_by.len(),
        spec_order_upto(order_by, k) is Err,
    ensures
        spec_order_upto(order_by, n) == spec_order_upto(order_by, k),
    decreases n - k,
{
    if k < n {
        lemma_order_fails(order_by, k, (n - 1) as nat);
    }
}

fn get_limit(expr: &SqlExpr) -> (res: Result<u64, PlanError>)
    ensures
        res == spec_limit(Some(expr@)),
{
    match expr {
        SqlExpr::Number(string) => match parse_u64(string.as_str()) {
            Some(v) => Ok(v),
            None => Err(PlanError::UnsupportedSqlConstruct),
        },
        _ => Err(PlanError::UnsupportedSqlConstruct),
    }
}

impl SortLimit {
    /// What the query asks for by ORDER BY and LIMIT. Of the directions written
    /// in the ORDER BY list the first holds for all columns. Without a LIMIT
    /// clause the limit is `NO_LIMIT`.
    pub fn from_query(query: &SqlQuery) -> (res: Result<SortLimit, PlanError>)
        ensures
            match res {
                Ok(sl) => spec_sort_limit(query@) == Ok::<SortLimitSpec, PlanError>(sl@),
                Err(e) => spec_sort_limit(query@) == Err::<SortLimitSpec, PlanError>(e),
            },
    {
        let ghost order_by = query@.order_by;
        let mut order: Option<Order> = None;
        let mut order_columns: Vec<ColRef> = Vec::new();
        let mut k: usize = 0;
        assert(cols_model(order_columns@) =~= Seq::<ColSpec>::empty());
        while k < query.order_by.len()
            invariant
                k <= query.order_by.len(),
                order_by == query@.order_by,
                spec_order_upto(order_by, k as nat) == Ok::<
                    (Seq<ColSpec>, Option<Order>),
                    PlanError,
                >((cols_model(order_columns@), order)),
            decreases query.order_by.len() - k,
        {
            let order_expr = &query.order_by[k];
            assert(order_by[k as int] == order_expr@);
            let ghost before = cols_model(order_columns@);
            let col = match convert_expr(&order_expr.expr) {
                Ok(c) => c,
                Err(e) => {
                    proof {
                        lemma_order_fails(order_by, (k + 1) as nat, order_by.len());
                    }
                    return Err(e);
                },
            };
            assert(cols_model(order_columns@.push(col)) =~= before.push(col@));
            order_columns.push(col);
            if order.is_none() {
                if let Some(asc) = order_expr.asc {
                    order = if asc {
                        Some(Order::ASC)
                    } else {
                        Some(Order::DESC)
                    };
                }
            }
            k += 1;
        }
        let limit: u64 = match &query.limit {
            Some(limit_expr) => match get_limit(limit_expr) {
                Ok(v) => v,
                Err(e) => {
                    return Err(e);
                },
            },
            None => NO_LIMIT,
        };
        Ok(SortLimit { order, order_columns, limit })
    }

    /// Wraps `op` in a sort/limit node; returns `op` itself where the query asks
    /// for no order and no limit.
    pub fn apply_sort_limit_ops(&self, op: Op) -> (res: Op)
        ensures
            res@ == spec_sort_wrap(self@, op@),
    {
        if self.limit == NO_LIMIT && self.order_columns.len() == 0 {
            return op;
        }
        let vs = op.virtual_schema();
        Op::SortLimitOp(
            Box::new(
                OpSortLimit {
                    input: op,
                    order_columns: clone_cols(self.order_columns.as_slice()),
                    order: self.order,
                    limit: self.limit,
                    ls: None,
                    vs,
                    cfg_name: None,
                },
            ),
        )
    }
}

} // verus!
