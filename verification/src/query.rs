use vstd::prelude::*;
use crate::ops::strings_model;

verus! {

/// A binary operator of a predicate, as far as the planner tells them apart.
#[derive(Debug, Clone, Copy, PartialEq, Eq, Structural)]
pub enum SqlBinaryOp {
    And,
    Eq,
    NotEq,
    Lt,
    Gt,
    LtEq,
    GtEq,
    /// Any other operator.
    Other,
}

/// An expression of the parsed statement, as far as the planner reads it.
#[derive(Debug, PartialEq, Eq)]
pub enum SqlExpr {
    /// An identifier of one part.
    Identifier(String),
    /// A qualified identifier, part by part.
    CompoundIdentifier(Vec<String>),
    BinaryOp { left: Box<SqlExpr>, op: SqlBinaryOp, right: Box<SqlExpr> },
    /// An expression in parentheses.
    Nested(Box<SqlExpr>),
    /// A numeric literal, as it was written.
    Number(String),
    /// A function call: the parts of the function's name, and its arguments.
    Function { name: Vec<String>, args: Vec<SqlFunctionArg> },
    /// Any other expression.
    Other,
}

/// An argument of a function call.
#[derive(Debug, PartialEq, Eq)]
pub enum SqlFunctionArg {
    /// An argument given by name.
    Named,
    Unnamed(SqlExpr),
}

/// An item of the SELECT list.
#[derive(Debug, PartialEq, Eq)]
pub enum SqlSelectItem {
    UnnamedExpr(SqlExpr),
    ExprWithAlias { expr: SqlExpr, alias: String },
    QualifiedWildcard,
    Wildcard,
}

/// An item of the FROM list.
#[derive(Debug, Clone, PartialEq, Eq)]
pub enum SqlTableFactor {
    /// A table: the parts of its name, and its alias if it has one.
    Table { name: Vec<String>, alias: Option<String> },
    /// Anything else: a derived table, a join clause.
    Other,
}

/// An item of the ORDER BY list; `asc` is the direction where one was written.
#[derive(Debug, PartialEq, Eq)]
pub struct SqlOrderByExpr {
    pub expr: SqlExpr,
    pub asc: Option<bool>,
}

/// A SELECT block.
#[derive(Debug, PartialEq, Eq)]
pub struct SqlSelect {
    pub projection: Vec<SqlSelectItem>,
    pub from: Vec<SqlTableFactor>,
    pub selection: Option<SqlExpr>,
    pub group_by: Vec<SqlExpr>,
}

/// The body of a query.
#[derive(Debug, PartialEq, Eq)]
pub enum SqlSetExpr {
    Select(Box<SqlSelect>),
    /// Anything else: a set operation, a nested query, a list of values.
    Other,
}

/// A parsed query.
#[derive(Debug, PartialEq, Eq)]
pub struct SqlQuery {
    pub body: SqlSetExpr,
    pub order_by: Vec<SqlOrderByExpr>,
    pub limit: Option<SqlExpr>,
}

/// Mathematical value of an expression.
pub enum ExprSpec {
    Identifier(Seq<char>),
    CompoundIdentifier(Seq<Seq<char>>),
    BinaryOp { left: Box<ExprSpec>, op: SqlBinaryOp, right: Box<ExprSpec> },
    Nested(Box<ExprSpec>),
    Number(Seq<char>),
    Function { name: Seq<Seq<char>>, args: Seq<FunctionArgSpec> },
    Other,
}

/// Mathematical value of an argument of a function call.
pub enum FunctionArgSpec {
    Named,
    Unnamed(Box<ExprSpec>),
}

/// Mathematical value of an item of the SELECT list.
pub enum SelectItemSpec {
    UnnamedExpr(ExprSpec),
    ExprWithAlias { expr: ExprSpec, alias: Seq<char> },
    QualifiedWildcard,
    Wildcard,
}

/// Mathematical value of an item of the FROM list.
pub enum TableFactorSpec {
    Table { name: Seq<Seq<char>>, alias: Option<Seq<char>> },
    Other,
}

/// Mathematical value of an item of the ORDER BY list.
pub struct OrderBySpec {
    pub expr: ExprSpec,
    pub asc: Option<bool>,
}

/// Mathematical value of a SELECT block.
pub struct SelectSpec {
    pub projection: Seq<SelectItemSpec>,
    pub from: Seq<TableFactorSpec>,
    pub selection: Option<ExprSpec>,
    pub group_by: Seq<ExprSpec>,
}

/// Mathematical value of the body of a query.
pub enum SetExprSpec {
    Select(SelectSpec),
    Other,
}

/// Mathematical value of a query.
pub struct QuerySpec {
    pub body: SetExprSpec,
    pub order_by: Seq<OrderBySpec>,
    pub limit: Option<ExprSpec>,
}

impl SqlExpr {
    /// The mathematical value of this expression.
    pub open spec fn model(&self) -> ExprSpec
        decreases self,
    {
        match self {
            SqlExpr::Identifier(s) => ExprSpec::Identifier(s@),
            SqlExpr::CompoundIdentifier(parts) => ExprSpec::CompoundIdentifier(
                strings_model(parts@),
            ),
            SqlExpr::BinaryOp { left, op, right } => ExprSpec::BinaryOp {
                left: Box::new(left.model()),
                op: *op,
                right: Box::new(right.model()),
            },
            SqlExpr::Nested(e) => ExprSpec::Nested(Box::new(e.model())),
            SqlExpr::Number(s) => ExprSpec::Number(s@),
            SqlExpr::Function { name, args } => ExprSpec::Function {
                name: strings_model(name@),
                args: Seq::new(
                    args@.len(),
                    |i: int|
                        if 0 <= i < args@.len() {
                            match args[i] {
                                SqlFunctionArg::Named => FunctionArgSpec::Named,
                                SqlFunctionArg::Unnamed(e) => FunctionArgSpec::Unnamed(
                                    Box::new(e.model()),
                                ),
                            }
                        } else {
                            FunctionArgSpec::Named
                        },
                ),
            },
            SqlExpr::Other => ExprSpec::Other,
        }
    }
}

impl View for SqlExpr {
    type V = ExprSpec;

    open spec fn view(&self) -> ExprSpec {
        self.model()
    }
}

/// The values of a list of expressions.
pub open spec fn exprs_model(exprs: Seq<SqlExpr>) -> Seq<ExprSpec> {
    exprs.map_values(|e: SqlExpr| e@)
}

impl View for SqlSelectItem {
    type V = SelectItemSpec;

    open spec fn view(&self) -> SelectItemSpec {
        match self {
            SqlSelectItem::UnnamedExpr(e) => SelectItemSpec::UnnamedExpr(e@),
            SqlSelectItem::ExprWithAlias { expr, alias } => SelectItemSpec::ExprWithAlias {
                expr: expr@,
                alias: alias@,
            },
            SqlSelectItem::QualifiedWildcard => SelectItemSpec::QualifiedWildcard,
            SqlSelectItem::Wildcard => SelectItemSpec::Wildcard,
        }
    }
}

impl View for SqlTableFactor {
    type V = TableFactorSpec;

    open spec fn view(&self) -> TableFactorSpec {
        match self {
            SqlTableFactor::Table { name, alias } => TableFactorSpec::Table {
                name: strings_model(name@),
                alias: match alias {
                    Some(a) => Some(a@),
                    None => None,
                },
            },
            SqlTableFactor::Other => TableFactorSpec::Other,
        }
    }
}

impl View for SqlOrderByExpr {
    type V = OrderBySpec;

    open spec fn view(&self) -> OrderBySpec {
        OrderBySpec { expr: self.expr@, asc: self.asc }
    }
}

/// The value of an expression that may be absent.
pub open spec fn opt_expr_model(e: Option<SqlExpr>) -> Option<ExprSpec> {
    match e {
        Some(x) => Some(x@),
        None => None,
    }
}

impl View for SqlSelect {
    type V = SelectSpec;

    open spec fn view(&self) -> SelectSpec {
        SelectSpec {
            projection: self.projection@.map_values(|i: SqlSelectItem| i@),
            from: self.from@.map_values(|t: SqlTableFactor| t@),
            selection: opt_expr_model(self.selection),
            group_by: exprs_model(self.group_by@),
        }
    }
}

impl View for SqlSetExpr {
    type V = SetExprSpec;

    open spec fn view(&self) -> SetExprSpec {
        match self {
            SqlSetExpr::Select(s) => SetExprSpec::Select(s@),
            SqlSetExpr::Other => SetExprSpec::Other,
        }
    }
}

impl View for SqlQuery {
    type V = QuerySpec;

    open spec fn view(&self) -> QuerySpec {
        QuerySpec {
            body: self.body@,
            order_by: self.order_by@.map_values(|o: SqlOrderByExpr| o@),
            limit: opt_expr_model(self.limit),
        }
    }
}

} // verus!
