use vstd::prelude::*;
use vstd::string::*;
use crate::error::PlanError;
use crate::ops::{
    col_outcome_model, lowercase, spec_agg_func, spec_col_of_idents, AggFunc, ColRef, ColSpec,
};
use crate::query::{ExprSpec, FunctionArgSpec, SelectItemSpec, SqlExpr, SqlFunctionArg, SqlSelectItem};
use crate::schema::{clone_cols, cols_model};
use crate::text::{decimal, decimal_string};

verus! {

/// The output columns of a query, and the name of each.
#[derive(Debug, PartialEq, Eq)]
pub struct Projection {
    pub items: Vec<ColRef>,
    pub aliases: Vec<String>,
}

/// Mathematical value of a projection.
pub struct ProjectionSpec {
    pub items: Seq<ColSpec>,
    pub aliases: Seq<Seq<char>>,
}

impl View for Projection {
    type V = ProjectionSpec;

    open spec fn view(&self) -> ProjectionSpec {
        ProjectionSpec {
            items: cols_model(self.items@),
            aliases: self.aliases@.map_values(|s: String| s@),
        }
    }
}

/// The column that an expression of a SELECT or ORDER BY list stands for: a
/// qualified identifier is a column of a table; a call of an aggregate function
/// with one unnamed argument is that aggregate over the argument's column.
/// Nothing else is supported.
pub open spec fn spec_convert_expr(e: ExprSpec) -> Result<ColSpec, PlanError>
    decreases e,
{
    match e {
        ExprSpec::CompoundIdentifier(idents) => spec_col_of_idents(idents),
        ExprSpec::Function { name, args } => {
            if name.len() == 1 && args.len() == 1 {
                match args[0] {
                    FunctionArgSpec::Unnamed(inner) => match spec_convert_expr(*inner) {
                        Ok(source) => match spec_agg_func(lowercase(name[0])) {
                            Some(func) => Ok(ColSpec::Aggregate { func, source: Box::new(source) }),
                            None => Err(PlanError::UnsupportedSqlConstruct),
                        },
                        Err(e) => Err(e),
                    },
                    FunctionArgSpec::Named => Err(PlanError::UnsupportedSqlConstruct),
                }
            } else {
                Err(PlanError::UnsupportedSqlConstruct)
            }
        },
        _ => Err(PlanError::UnsupportedSqlConstruct),
    }
}

/// The column that the expression stands for.
pub fn convert_expr(expr: &SqlExpr) -> (res: Result<ColRef, PlanError>)
    ensures
        col_outcome_model(res) == spec_convert_expr(expr@),
    decreases expr,
{
    match expr {
        SqlExpr::CompoundIdentifier(idents) => ColRef::from_idents(idents.as_slice()),
        SqlExpr::Function { name, args } => {
            if name.len() != 1 || args.len() != 1 {
                return Err(PlanError::UnsupportedSqlConstruct);
            }
            assert(expr@->Function_args[0] == match args[0] {
                SqlFunctionArg::Named => FunctionArgSpec::Named,
                SqlFunctionArg::Unnamed(e) => FunctionArgSpec::Unnamed(Box::new(e@)),
            });
            let source = match &args[0] {
                SqlFunctionArg::Named => {
                    return Err(PlanError::UnsupportedSqlConstruct);
                },
                SqlFunctionArg::Unnamed(inner) => match convert_expr(inner) {
                    Ok(c) => c,
                    Err(e) => {
                        return Err(e);
                    },
                },
            };
            match AggFunc::parse_agg_func(name[0].as_str()) {
                Some(func) => Ok(ColRef::AggregateRef { func, source: Box::new(source) }),
                None => Err(PlanError::UnsupportedSqlConstruct),
            }
        },
        _ => Err(PlanError::UnsupportedSqlConstruct),
    }
}

/// The column of an item of the SELECT list, and the alias that was written
/// for it. Wildcards are not supported.
pub open spec fn spec_convert_item(item: SelectItemSpec) -> Result<
    (ColSpec, Option<Seq<char>>),
    PlanError,
> {
    match item {
        SelectItemSpec::UnnamedExpr(e) => match spec_convert_expr(e) {
            Ok(c) => Ok((c, None)),
            Err(e) => Err(e),
        },
        SelectItemSpec::ExprWithAlias { expr, alias } => match spec_convert_expr(expr) {
            Ok(c) => Ok((c, Some(alias))),
            Err(e) => Err(e),
        },
        SelectItemSpec::QualifiedWildcard => Err(PlanError::UnsupportedSqlConstruct),
        SelectItemSpec::Wildcard => Err(PlanError::UnsupportedSqlConstruct),
    }
}

/// The name of the output column at position `i` that has no alias.
pub open spec fn default_alias(i: nat) -> Seq<char> {
    "_"@ + decimal(i)
}

/// The projection made of the first `k` items of a SELECT list.
pub open spec fn spec_projection_upto(items: Seq<SelectItemSpec>, k: nat) -> Result<
    ProjectionSpec,
    PlanError,
>
    decreases k,
{
    if k == 0 || k > items.len() {
        Ok(ProjectionSpec { items: Seq::empty(), aliases: Seq::empty() })
    } else {
        match spec_projection_upto(items, (k - 1) as nat) {
            Ok(p) => match spec_convert_item(items[k - 1]) {
                Ok((col, alias)) => Ok(
                    ProjectionSpec {
                        items: p.items.push(col),
                        aliases: p.aliases.push(
                            match alias {
                                Some(a) => a,
                                None => default_alias((k - 1) as nat),
                            },
                        ),
                    },
                ),
                Err(e) => Err(e),
            },
            Err(e) => Err(e),
        }
    }
}

/// Once an item has failed to convert, those after it change nothing.
proof fn lemma_projection_fails(items: Seq<SelectItemSpec>, k: nat, n: nat)
    requires
        k <= n <= items.len(),
        spec_projection_upto(items, k) is Err,
    ensures
        spec_projection_upto(items, n) == spec_projection_upto(items, k),
    decreases n - k,
{
    if k < n {
        lemma_projection_fails(items, k, (n - 1) as nat);
    }
}

fn convert_item(item: &SqlSelectItem) -> (res: Result<(ColRef, Option<String>), PlanError>)
    ensures
        match res {
            Ok((col, alias)) => spec_convert_item(item@) == Ok::<
                (ColSpec, Option<Seq<char>>),
                PlanError,
            >(
                (
                    col@,
                    match alias {
                        Some(a) => Some(a@),
                        None => None,
                    },
                ),
            ),
            Err(e) => spec_convert_item(item@) == Err::<(ColSpec, Option<Seq<char>>), PlanError>(e),
        },
{
    match item {
        SqlSelectItem::UnnamedExpr(expr) => match convert_expr(expr) {
            Ok(c) => Ok((c, None)),
            Err(e) => Err(e),
        },
        SqlSelectItem::ExprWithAlias { expr, alias } => match convert_expr(expr) {
            Ok(c) => Ok((c, Some(alias.clone()))),
            Err(e) => Err(e),
        },
        SqlSelectItem::QualifiedWildcard => Err(PlanError::UnsupportedSqlConstruct),
        SqlSelectItem::Wildcard => Err(PlanError::UnsupportedSqlConstruct),
    }
}

impl Projection {
    /// The projection that a SELECT list asks for. An item without an alias is
    /// named `_` followed by its position.
    pub fn from_items(items: &Vec<SqlSelectItem>) -> (res: Result<Projection, PlanError>)
        ensures
            match res {
                Ok(p) => spec_projection_upto(
                    items@.map_values(|i: SqlSelectItem| i@),
                    items.len() as nat,
                ) == Ok::<ProjectionSpec, PlanError>(p@),
                Err(e) => spec_projection_upto(
                    items@.map_values(|i: SqlSelectItem| i@),
                    items.len() as nat,
                ) == Err::<ProjectionSpec, PlanError>(e),
            },
    {
        let ghost models = items@.map_values(|i: SqlSelectItem| i@);
        let mut projection_items: Vec<ColRef> = Vec::new();
        let mut projection_aliases: Vec<String> = Vec::new();
        let mut k: usize = 0;
        proof {
            let none = (Projection { items: projection_items, aliases: projection_aliases })@;
            assert(none.items =~= Seq::<ColSpec>::empty());
            assert(none.aliases =~= Seq::<Seq<char>>::empty());
        }
        while k < items.len()
            invariant
                k <= items.len(),
                models == items@.map_values(|i: SqlSelectItem| i@),
                spec_projection_upto(models, k as nat) == Ok::<ProjectionSpec, PlanError>(
                    (Projection { items: projection_items, aliases: projection_aliases })@,
                ),
            decreases items.len() - k,
        {
            let ghost before = (Projection { items: projection_items, aliases: projection_aliases })@;
            let (internal_item, alias_optional) = match convert_item(&items[k]) {
                Ok(pair) => pair,
                Err(e) => {
                    proof {
                        lemma_projection_fails(models, (k + 1) as nat, models.len());
                    }
                    return Err(e);
                },
            };
            let alias = match alias_optional {
                Some(a) => a,
                None => {
                    let mut a = "_".to_owned();
                    a.append(decimal_string(k as u64).as_str());
                    a
                },
            };
            projection_items.push(internal_item);
            projection_aliases.push(alias);
            proof {
                let now = (Projection { items: projection_items, aliases: projection_aliases })@;
                assert(now.items =~= before.items.push(internal_item@));
                assert(now.aliases =~= before.aliases.push(alias@));
            }
            k += 1;
        }
        Ok(Projection { items: projection_items, aliases: projection_aliases })
    }

    /// The columns that the query puts out, in order.
    pub fn needed_projection(&self) -> (res: Vec<ColRef>)
        ensures
            cols_model(res@) == self@.items,
    {
        clone_cols(self.items.as_slice())
    }

    /// The names of the columns that the query puts out, in order.
    pub fn needed_projection_aliases(&self) -> (res: Vec<String>)
        ensures
            res@.map_values(|s: String| s@) == self@.aliases,
    {
        let mut res: Vec<String> = Vec::new();
        let mut i: usize = 0;
        while i < self.aliases.len()
            invariant
                i <= self.aliases.len(),
                res.len() == i,
                forall|j: int| 0 <= j < i ==> res[j]@ == self.aliases[j]@,
            decreases self.aliases.len() - i,
        {
            res.push(self.aliases[i].clone());
            i += 1;
        }
        assert(res@.map_values(|s: String| s@) =~= self@.aliases);
        res
    }
}

} // verus!
