use vstd::prelude::*;

verus! {

/// The six ways in which planning can fail. Every failure is fatal.
#[derive(Debug, Clone, Copy, PartialEq, Eq, Hash, Structural)]
pub enum ErrorKind {
    UnsupportedSqlConstruct,
    AmbiguousOrMissingAggregate,
    NoLinearJoinOrder,
    UnsatisfiableEquality,
    ColumnNotFound,
    PushdownAcrossAggregationUnsupported,
}

/// The precise reason of a failure; `kind` gives the kind it belongs to.
#[derive(Debug, Clone, Copy, PartialEq, Eq, Hash, Structural)]
pub enum PlanError {
    /// A clause, projection item or table reference outside the supported subset.
    UnsupportedSqlConstruct,
    /// A predicate of a shape that no filter can express.
    UnsupportedPredicate,
    /// GROUP BY without an aggregate, or an aggregate without GROUP BY.
    MissingOrExtraAggregate,
    /// Two different aggregate expressions in one projection.
    MultipleAggregatesUnsupported,
    /// The equality predicates connect the tables by no simple path through all of them.
    NoLinearJoinOrder,
    /// An equality between two columns that the chosen join order does not imply.
    UnsatisfiableEquality,
    /// A column that the schema it is resolved against does not hold.
    ColumnNotFound,
    /// A table that the metadata does not define.
    UnknownTable,
    /// A filter met an aggregation below it.
    PushdownAcrossAggregationUnsupported,
}

impl PlanError {
    /// What went wrong, in words.
    pub open spec fn spec_message(self) -> Seq<char> {
        match self {
            PlanError::UnsupportedSqlConstruct => "unsupported SQL construct"@,
            PlanError::UnsupportedPredicate => "unsupported predicate"@,
            PlanError::MissingOrExtraAggregate => "GROUP BY and aggregate must come together"@,
            PlanError::MultipleAggregatesUnsupported => "more than one aggregate expression"@,
            PlanError::NoLinearJoinOrder => "no linear join order"@,
            PlanError::UnsatisfiableEquality => "equality not implied by the join order"@,
            PlanError::ColumnNotFound => "column not found"@,
            PlanError::UnknownTable => "table not found"@,
            PlanError::PushdownAcrossAggregationUnsupported =>
                "cannot push a filter below an aggregation"@,
        }
    }

    /// The kind of failure that this error belongs to.
    pub open spec fn spec_kind(self) -> ErrorKind {
        match self {
            PlanError::UnsupportedSqlConstruct => ErrorKind::UnsupportedSqlConstruct,
            PlanError::UnsupportedPredicate => ErrorKind::UnsupportedSqlConstruct,
            PlanError::MissingOrExtraAggregate => ErrorKind::AmbiguousOrMissingAggregate,
            PlanError::MultipleAggregatesUnsupported => ErrorKind::AmbiguousOrMissingAggregate,
            PlanError::NoLinearJoinOrder => ErrorKind::NoLinearJoinOrder,
            PlanError::UnsatisfiableEquality => ErrorKind::UnsatisfiableEquality,
            PlanError::ColumnNotFound => ErrorKind::ColumnNotFound,
            PlanError::UnknownTable => ErrorKind::ColumnNotFound,
            PlanError::PushdownAcrossAggregationUnsupported =>
                ErrorKind::PushdownAcrossAggregationUnsupported,
        }
    }

    /// What went wrong, in words.
    pub fn to_string(&self) -> (res: String)
        ensures
            res@ == self.spec_message(),
    {
        match self {
            PlanError::UnsupportedSqlConstruct => "unsupported SQL construct".to_owned(),
            PlanError::UnsupportedPredicate => "unsupported predicate".to_owned(),
            PlanError::MissingOrExtraAggregate =>
                "GROUP BY and aggregate must come together".to_owned(),
            PlanError::MultipleAggregatesUnsupported =>
                "more than one aggregate expression".to_owned(),
            PlanError::NoLinearJoinOrder => "no linear join order".to_owned(),
            PlanError::UnsatisfiableEquality =>
                "equality not implied by the join order".to_owned(),
            PlanError::ColumnNotFound => "column not found".to_owned(),
            PlanError::UnknownTable => "table not found".to_owned(),
            PlanError::PushdownAcrossAggregationUnsupported =>
                "cannot push a filter below an aggregation".to_owned(),
        }
    }

    /// The kind of failure that this error belongs to.
    #[verifier::when_used_as_spec(spec_kind)]
    pub fn kind(self) -> (res: ErrorKind)
        ensures
            res == self.spec_kind(),
    {
        match self {
            PlanError::UnsupportedSqlConstruct => ErrorKind::UnsupportedSqlConstruct,
            PlanError::UnsupportedPredicate => ErrorKind::UnsupportedSqlConstruct,
            PlanError::MissingOrExtraAggregate => ErrorKind::AmbiguousOrMissingAggregate,
            PlanError::MultipleAggregatesUnsupported => ErrorKind::AmbiguousOrMissingAggregate,
            PlanError::NoLinearJoinOrder => ErrorKind::NoLinearJoinOrder,
            PlanError::UnsatisfiableEquality => ErrorKind::UnsatisfiableEquality,
            PlanError::ColumnNotFound => ErrorKind::ColumnNotFound,
            PlanError::UnknownTable => ErrorKind::ColumnNotFound,
            PlanError::PushdownAcrossAggregationUnsupported =>
                ErrorKind::PushdownAcrossAggregationUnsupported,
        }
    }
}

} // verus!
