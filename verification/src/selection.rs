use vstd::prelude::*;
use crate::equality::{implied_relation, lemma_chain_implies, EqualityFactSet};
use crate::error::PlanError;
use crate::ops::{spec_col_of_idents, ColRef, ColSpec, NodeSpec, Op, OpFilter, PlanSpec};
use crate::query::{ExprSpec, SqlBinaryOp, SqlExpr};

verus! {

/// A predicate over columns and literals.
#[derive(Debug, PartialEq, Eq)]
pub enum Selection {
    Identity(ColRef),
    And(Vec<Selection>),
    Eq(Box<Selection>, Box<Selection>),
    NotEq(Box<Selection>, Box<Selection>),
    Lt(Box<Selection>, Box<Selection>),
    Gt(Box<Selection>, Box<Selection>),
    LtEq(Box<Selection>, Box<Selection>),
    GtEq(Box<Selection>, Box<Selection>),
    Const(String),
}

/// Mathematical value of a predicate.
pub enum SelSpec {
    Identity(ColSpec),
    And(Seq<SelSpec>),
    Eq(Box<SelSpec>, Box<SelSpec>),
    NotEq(Box<SelSpec>, Box<SelSpec>),
    Lt(Box<SelSpec>, Box<SelSpec>),
    Gt(Box<SelSpec>, Box<SelSpec>),
    LtEq(Box<SelSpec>, Box<SelSpec>),
    GtEq(Box<SelSpec>, Box<SelSpec>),
    Const(Seq<char>),
}

impl Selection {
    /// The mathematical value of this predicate.
    pub open spec fn model(&self) -> SelSpec
        decreases self,
    {
        match self {
            Selection::Identity(c) => SelSpec::Identity(c@),
            Selection::And(subs) => SelSpec::And(
                Seq::new(
                    subs@.len(),
                    |i: int|
                        if 0 <= i < subs@.len() {
                            subs[i].model()
                        } else {
                            SelSpec::And(Seq::empty())
                        },
                ),
            ),
            Selection::Eq(l, r) => SelSpec::Eq(Box::new(l.model()), Box::new(r.model())),
            Selection::NotEq(l, r) => SelSpec::NotEq(Box::new(l.model()), Box::new(r.model())),
            Selection::Lt(l, r) => SelSpec::Lt(Box::new(l.model()), Box::new(r.model())),
            Selection::Gt(l, r) => SelSpec::Gt(Box::new(l.model()), Box::new(r.model())),
            Selection::LtEq(l, r) => SelSpec::LtEq(Box::new(l.model()), Box::new(r.model())),
            Selection::GtEq(l, r) => SelSpec::GtEq(Box::new(l.model()), Box::new(r.model())),
            Selection::Const(s) => SelSpec::Const(s@),
        }
    }
}

impl View for Selection {
    type V = SelSpec;

    open spec fn view(&self) -> SelSpec {
        self.model()
    }
}

/// The predicates that a tree of conjunctions joins: the tree's leaves, in order.
/// A predicate that is no conjunction is its own single leaf.
pub open spec fn conjuncts(s: SelSpec) -> Seq<SelSpec>
    decreases s, 0nat,
{
    match s {
        SelSpec::And(subs) => conjuncts_upto(subs, subs.len()),
        _ => seq![s],
    }
}

/// The leaves of the first `k` predicates of `subs`.
pub open spec fn conjuncts_upto(subs: Seq<SelSpec>, k: nat) -> Seq<SelSpec>
    decreases subs, k,
{
    if k == 0 || k > subs.len() {
        Seq::empty()
    } else {
        conjuncts_upto(subs, (k - 1) as nat) + conjuncts(subs[k - 1])
    }
}

/// The normal form of a predicate: one conjunction of all its leaves.
pub open spec fn spec_normalized(s: SelSpec) -> SelSpec {
    SelSpec::And(conjuncts(s))
}

/// No leaf of a tree of conjunctions is itself a conjunction.
pub proof fn lemma_conjuncts_are_leaves(s: SelSpec, i: int)
    requires
        0 <= i < conjuncts(s).len(),
    ensures
        !(conjuncts(s)[i] is And),
    decreases s, 0nat,
{
    match s {
        SelSpec::And(subs) => {
            lemma_conjuncts_upto_are_leaves(subs, subs.len(), i);
        },
        _ => {},
    }
}

proof fn lemma_conjuncts_upto_are_leaves(subs: Seq<SelSpec>, k: nat, i: int)
    requires
        0 <= i < conjuncts_upto(subs, k).len(),
    ensures
        !(conjuncts_upto(subs, k)[i] is And),
    decreases subs, k,
{
    if k == 0 || k > subs.len() {
    } else {
        let head = conjuncts_upto(subs, (k - 1) as nat);
        if i < head.len() {
            lemma_conjuncts_upto_are_leaves(subs, (k - 1) as nat, i);
        } else {
            lemma_conjuncts_are_leaves(subs[k - 1], i - head.len());
        }
    }
}

/// A list of leaves is the list of its own leaves.
proof fn lemma_leaves_are_fixed(subs: Seq<SelSpec>, k: nat)
    requires
        k <= subs.len(),
        forall|i: int| 0 <= i < subs.len() ==> !(#[trigger] subs[i] is And),
    ensures
        conjuncts_upto(subs, k) == subs.subrange(0, k as int),
    decreases k,
{
    if k == 0 {
        assert(subs.subrange(0, 0) =~= Seq::<SelSpec>::empty());
    } else {
        lemma_leaves_are_fixed(subs, (k - 1) as nat);
        assert(!(subs[k - 1] is And));
        assert(conjuncts(subs[k - 1]) == seq![subs[k - 1]]);
        assert(subs.subrange(0, k as int) =~= subs.subrange(0, k - 1) + seq![subs[k - 1]]);
    }
}

/// Normalization is idempotent: the normal form of a normal form is itself.
pub proof fn lemma_normalized_idempotent(s: SelSpec)
    ensures
        spec_normalized(spec_normalized(s)) == spec_normalized(s),
{
    let leaves = conjuncts(s);
    assert forall|i: int| 0 <= i < leaves.len() implies !(#[trigger] leaves[i] is And) by {
        lemma_conjuncts_are_leaves(s, i);
    }
    lemma_leaves_are_fixed(leaves, leaves.len());
    assert(leaves.subrange(0, leaves.len() as int) =~= leaves);
}

/// The two sides of an equality between two columns, if `s` is one.
pub open spec fn equijoin_of(s: SelSpec) -> Option<(ColSpec, ColSpec)> {
    match s {
        SelSpec::Eq(l, r) => match (*l, *r) {
            (SelSpec::Identity(a), SelSpec::Identity(b)) => Some((a, b)),
            _ => None,
        },
        _ => None,
    }
}

/// The column pairs that the first `k` predicates of `subs` equate, each pair
/// once, in the order in which they first occur.
pub open spec fn equijoins_upto(subs: Seq<SelSpec>, k: nat) -> Seq<(ColSpec, ColSpec)>
    decreases k,
{
    if k == 0 || k > subs.len() {
        Seq::empty()
    } else {
        let found = equijoins_upto(subs, (k - 1) as nat);
        match equijoin_of(subs[k - 1]) {
            Some(pair) => if found.contains(pair) {
                found
            } else {
                found.push(pair)
            },
            None => found,
        }
    }
}

/// The values of a list of column pairs.
pub open spec fn pairs_model(pairs: Seq<(ColRef, ColRef)>) -> Seq<(ColSpec, ColSpec)> {
    pairs.map_values(|p: (ColRef, ColRef)| (p.0@, p.1@))
}

/// The pairs found among the first `k` predicates are exactly the pairs that
/// one of them equates, and none is listed twice.
pub proof fn lemma_equijoins_complete(subs: Seq<SelSpec>, k: nat)
    requires
        k <= subs.len(),
    ensures
        equijoins_upto(subs, k).no_duplicates(),
        forall|pair: (ColSpec, ColSpec)|
            equijoins_upto(subs, k).contains(pair) <==> exists|i: int|
                0 <= i < k && #[trigger] equijoin_of(subs[i]) == Some(pair),
    decreases k,
{
    if k > 0 {
        lemma_equijoins_complete(subs, (k - 1) as nat);
        let found = equijoins_upto(subs, (k - 1) as nat);
        let all = equijoins_upto(subs, k);
        assert forall|pair: (ColSpec, ColSpec)| all.contains(pair) <==> exists|i: int|
            0 <= i < k && #[trigger] equijoin_of(subs[i]) == Some(pair) by {
            if all.contains(pair) {
                if found.contains(pair) {
                    let i = choose|i: int|
                        0 <= i < k - 1 && #[trigger] equijoin_of(subs[i]) == Some(pair);
                    assert(0 <= i < k && equijoin_of(subs[i]) == Some(pair));
                } else {
                    let j = choose|j: int| 0 <= j < all.len() && all[j] == pair;
                    if j < found.len() {
                        assert(found[j] == pair);
                    }
                    assert(equijoin_of(subs[k - 1]) == Some(pair));
                }
            }
            if exists|i: int| 0 <= i < k && #[trigger] equijoin_of(subs[i]) == Some(pair) {
                let i = choose|i: int| 0 <= i < k && #[trigger] equijoin_of(subs[i]) == Some(pair);
                if i < k - 1 {
                    assert(found.contains(pair));
                    let j = choose|j: int| 0 <= j < found.len() && found[j] == pair;
                    assert(all[j] == pair);
                } else if found.contains(pair) {
                } else {
                    assert(all[found.len() as int] == pair);
                }
            }
        }
    }
}

/// The two operands of a comparison, as far as a filter can take them.
pub enum OperandsSpec {
    ColConst(ColSpec, Seq<char>),
    ConstCol(Seq<char>, ColSpec),
    ColCol(ColSpec, ColSpec),
    Other,
}

/// Tells a column compared to a literal, a literal compared to a column and two
/// columns apart from every other pair of operands.
pub open spec fn spec_operands(l: SelSpec, r: SelSpec) -> OperandsSpec {
    match (l, r) {
        (SelSpec::Identity(c), SelSpec::Const(v)) => OperandsSpec::ColConst(c, v),
        (SelSpec::Const(v), SelSpec::Identity(c)) => OperandsSpec::ConstCol(v, c),
        (SelSpec::Identity(a), SelSpec::Identity(b)) => OperandsSpec::ColCol(a, b),
        _ => OperandsSpec::Other,
    }
}

/// The value of the outcome of a planning step.
pub open spec fn outcome_model(res: Result<Op, PlanError>) -> Result<PlanSpec, PlanError> {
    match res {
        Ok(op) => Ok(op@),
        Err(e) => Err(e),
    }
}

/// A filter `field sym value` placed on `op`. The field must be reachable from `op`.
pub open spec fn spec_filter(op: PlanSpec, sym: Seq<char>, field: ColSpec, value: Seq<char>) -> Result<
    PlanSpec,
    PlanError,
> {
    if op.vs.contains(field) {
        Ok(
            PlanSpec {
                node: NodeSpec::Filter { input: Box::new(op), op: sym, field, value },
                ls: None,
                vs: op.vs,
                cfg_name: None,
            },
        )
    } else {
        Err(PlanError::ColumnNotFound)
    }
}

/// The filter for an order comparison of a column and a literal: `direct` is the
/// comparator where the column stands on the left, `flipped` where the literal does.
pub open spec fn spec_comparison(
    op: PlanSpec,
    l: SelSpec,
    r: SelSpec,
    direct: Seq<char>,
    flipped: Seq<char>,
) -> Result<PlanSpec, PlanError> {
    match spec_operands(l, r) {
        OperandsSpec::ColConst(c, v) => spec_filter(op, direct, c, v),
        OperandsSpec::ConstCol(v, c) => spec_filter(op, flipped, c, v),
        _ => Err(PlanError::UnsupportedPredicate),
    }
}

/// The operator tree that results from placing on `op` one filter for each
/// predicate of `sel` that the join order does not already guarantee; `known`
/// holds of the pairs of columns that the join order makes equal.
pub open spec fn spec_apply_filters(
    sel: SelSpec,
    op: PlanSpec,
    known: spec_fn(ColSpec, ColSpec) -> bool,
) -> Result<PlanSpec, PlanError>
    decreases sel, 0nat,
{
    match sel {
        SelSpec::Identity(_) => Err(PlanError::UnsupportedPredicate),
        SelSpec::Const(_) => Err(PlanError::UnsupportedPredicate),
        SelSpec::And(subs) => spec_apply_filters_upto(subs, subs.len(), op, known),
        SelSpec::Eq(l, r) => match spec_operands(*l, *r) {
            OperandsSpec::ColConst(c, v) => spec_filter(op, "=="@, c, v),
            OperandsSpec::ConstCol(v, c) => spec_filter(op, "=="@, c, v),
            OperandsSpec::ColCol(a, b) => if known(a, b) {
                Ok(op)
            } else {
                Err(PlanError::UnsatisfiableEquality)
            },
            OperandsSpec::Other => Err(PlanError::UnsupportedPredicate),
        },
        SelSpec::NotEq(l, r) => spec_comparison(op, *l, *r, "!="@, "!="@),
        SelSpec::Lt(l, r) => spec_comparison(op, *l, *r, "<"@, ">"@),
        SelSpec::Gt(l, r) => spec_comparison(op, *l, *r, ">"@, "<"@),
        SelSpec::LtEq(l, r) => spec_comparison(op, *l, *r, "<="@, ">="@),
        SelSpec::GtEq(l, r) => spec_comparison(op, *l, *r, ">="@, "<="@),
    }
}

/// Along a join chain that equates `a` with `b` and `b` with `c`, a residual
/// equality of `a` and `c` is guaranteed already and places no filter; an
/// equality of `a` with a column that the chain does not name is refused.
pub proof fn lemma_chain_equality_needs_no_filter(
    a: ColSpec,
    b: ColSpec,
    c: ColSpec,
    d: ColSpec,
    op: PlanSpec,
)
    requires
        d != a,
        d != b,
        d != c,
    ensures
        spec_apply_filters(
            SelSpec::Eq(Box::new(SelSpec::Identity(a)), Box::new(SelSpec::Identity(c))),
            op,
            implied_relation(seq![(a, b), (b, c)]),
        ) == Ok::<PlanSpec, PlanError>(op),
        spec_apply_filters(
            SelSpec::Eq(Box::new(SelSpec::Identity(a)), Box::new(SelSpec::Identity(d))),
            op,
            implied_relation(seq![(a, b), (b, c)]),
        ) == Err::<PlanSpec, PlanError>(PlanError::UnsatisfiableEquality),
{
    lemma_chain_implies(a, b, c, d);
}

/// The first `k` predicates of `subs` applied one after the other, left to right.
pub open spec fn spec_apply_filters_upto(
    subs: Seq<SelSpec>,
    k: nat,
    op: PlanSpec,
    known: spec_fn(ColSpec, ColSpec) -> bool,
) -> Result<PlanSpec, PlanError>
    decreases subs, k,
{
    if k == 0 || k > subs.len() {
        Ok(op)
    } else {
        match spec_apply_filters_upto(subs, (k - 1) as nat, op, known) {
            Ok(below) => spec_apply_filters(subs[k - 1], below, known),
            Err(e) => Err(e),
        }
    }
}

/// The two operands of a comparison, as far as a filter can take them.
enum Operands<'a> {
    ColConst(&'a ColRef, &'a String),
    ConstCol(&'a String, &'a ColRef),
    ColCol(&'a ColRef, &'a ColRef),
    Other,
}

impl<'a> Operands<'a> {
    spec fn model(self) -> OperandsSpec {
        match self {
            Operands::ColConst(c, v) => OperandsSpec::ColConst(c@, v@),
            Operands::ConstCol(v, c) => OperandsSpec::ConstCol(v@, c@),
            Operands::ColCol(a, b) => OperandsSpec::ColCol(a@, b@),
            Operands::Other => OperandsSpec::Other,
        }
    }
}

fn operands<'a>(l: &'a Selection, r: &'a Selection) -> (res: Operands<'a>)
    ensures
        res.model() == spec_operands(l@, r@),
{
    match l {
        Selection::Identity(a) => match r {
            Selection::Const(v) => Operands::ColConst(a, v),
            Selection::Identity(b) => Operands::ColCol(a, b),
            _ => Operands::Other,
        },
        Selection::Const(v) => match r {
            Selection::Identity(c) => Operands::ConstCol(v, c),
            _ => Operands::Other,
        },
        _ => Operands::Other,
    }
}

/// Places the filter `colref bin_op rep` on `op`.
fn compose_binary_filter(bin_op: &str, op: Op, colref: &ColRef, rep: &String) -> (res: Result<
    Op,
    PlanError,
>)
    ensures
        outcome_model(res) == spec_filter(op@, bin_op@, colref@, rep@),
{
    let vs = op.virtual_schema();
    if !vs.contains(colref) {
        return Err(PlanError::ColumnNotFound);
    }
    Ok(
        Op::FilterOp(
            Box::new(
                OpFilter {
                    input: op,
                    op: bin_op.to_owned(),
                    field: colref.clone(),
                    value: rep.clone(),
                    ls: None,
                    vs,
                    cfg_name: None,
                },
            ),
        ),
    )
}

/// Places the filter for an order comparison on `op`.
fn compose_comparison(op: Op, l: &Selection, r: &Selection, direct: &str, flipped: &str) -> (res:
    Result<Op, PlanError>)
    ensures
        outcome_model(res) == spec_comparison(op@, l@, r@, direct@, flipped@),
{
    match operands(l, r) {
        Operands::ColConst(c, v) => compose_binary_filter(direct, op, c, v),
        Operands::ConstCol(v, c) => compose_binary_filter(flipped, op, c, v),
        _ => Err(PlanError::UnsupportedPredicate),
    }
}

/// The predicate that an expression of a WHERE clause stands for: a conjunction
/// or comparison of two predicates, a column named by a qualified identifier, or
/// a numeric literal; parentheses change nothing. Nothing else is supported.
pub open spec fn spec_selection_of(e: ExprSpec) -> Result<SelSpec, PlanError>
    decreases e,
{
    match e {
        ExprSpec::BinaryOp { left, op, right } => {
            if op == SqlBinaryOp::Other {
                Err(PlanError::UnsupportedSqlConstruct)
            } else {
                match spec_selection_of(*left) {
                    Ok(l) => match spec_selection_of(*right) {
                        Ok(r) => Ok(
                            match op {
                                SqlBinaryOp::And => SelSpec::And(seq![l, r]),
                                SqlBinaryOp::Eq => SelSpec::Eq(Box::new(l), Box::new(r)),
                                SqlBinaryOp::NotEq => SelSpec::NotEq(Box::new(l), Box::new(r)),
                                SqlBinaryOp::Lt => SelSpec::Lt(Box::new(l), Box::new(r)),
                                SqlBinaryOp::Gt => SelSpec::Gt(Box::new(l), Box::new(r)),
                                SqlBinaryOp::LtEq => SelSpec::LtEq(Box::new(l), Box::new(r)),
                                _ => SelSpec::GtEq(Box::new(l), Box::new(r)),
                            },
                        ),
                        Err(e) => Err(e),
                    },
                    Err(e) => Err(e),
                }
            }
        },
        ExprSpec::CompoundIdentifier(idents) => match spec_col_of_idents(idents) {
            Ok(c) => Ok(SelSpec::Identity(c)),
            Err(e) => Err(e),
        },
        ExprSpec::Nested(inner) => spec_selection_of(*inner),
        ExprSpec::Number(text) => Ok(SelSpec::Const(text)),
        _ => Err(PlanError::UnsupportedSqlConstruct),
    }
}

/// The value of the outcome of a conversion to a predicate.
pub open spec fn selection_outcome_model(res: Result<Selection, PlanError>) -> Result<
    SelSpec,
    PlanError,
> {
    match res {
        Ok(s) => Ok(s@),
        Err(e) => Err(e),
    }
}

/// The same predicates in the opposite order.
fn reversed(v: Vec<Selection>) -> (res: Vec<Selection>)
    ensures
        res@ == v@.reverse(),
{
    let mut rest = v;
    let mut res: Vec<Selection> = Vec::new();
    while rest.len() > 0
        invariant
            rest.len() + res.len() == v.len(),
            rest@ == v@.subrange(0, rest.len() as int),
            forall|i: int| 0 <= i < res.len() ==> res[i] == v[v.len() - 1 - i],
        decreases rest.len(),
    {
        let last = rest.pop().unwrap();
        res.push(last);
    }
    assert(res@ =~= v@.reverse());
    res
}

impl Selection {
    /// The predicate that the expression of a WHERE clause stands for.
    pub fn from_expr(expr: &SqlExpr) -> (res: Result<Selection, PlanError>)
        ensures
            selection_outcome_model(res) == spec_selection_of(expr@),
        decreases expr,
    {
        match expr {
            SqlExpr::BinaryOp { left, op, right } => {
                if let SqlBinaryOp::Other = op {
                    return Err(PlanError::UnsupportedSqlConstruct);
                }
                let l = match Selection::from_expr(left) {
                    Ok(l) => l,
                    Err(e) => {
                        return Err(e);
                    },
                };
                let r = match Selection::from_expr(right) {
                    Ok(r) => r,
                    Err(e) => {
                        return Err(e);
                    },
                };
                match op {
                    SqlBinaryOp::And => {
                        let ghost lm = l@;
                        let ghost rm = r@;
                        let mut both: Vec<Selection> = Vec::new();
                        both.push(l);
                        both.push(r);
                        assert(Selection::And(both)@->And_0 =~= seq![lm, rm]);
                        Ok(Selection::And(both))
                    },
                    SqlBinaryOp::Eq => Ok(Selection::Eq(Box::new(l), Box::new(r))),
                    SqlBinaryOp::NotEq => Ok(Selection::NotEq(Box::new(l), Box::new(r))),
                    SqlBinaryOp::Lt => Ok(Selection::Lt(Box::new(l), Box::new(r))),
                    SqlBinaryOp::Gt => Ok(Selection::Gt(Box::new(l), Box::new(r))),
                    SqlBinaryOp::LtEq => Ok(Selection::LtEq(Box::new(l), Box::new(r))),
                    _ => Ok(Selection::GtEq(Box::new(l), Box::new(r))),
                }
            },
            SqlExpr::CompoundIdentifier(idents) => match ColRef::from_idents(idents.as_slice()) {
                Ok(c) => Ok(Selection::Identity(c)),
                Err(e) => Err(e),
            },
            SqlExpr::Nested(subexpr) => Selection::from_expr(subexpr),
            SqlExpr::Number(val_str) => Ok(Selection::Const(val_str.clone())),
            _ => Err(PlanError::UnsupportedSqlConstruct),
        }
    }

    /// Flattens nested conjunctions into one conjunction of all the leaves; a
    /// predicate that is no conjunction becomes a conjunction of itself alone.
    pub fn normalized(self) -> (res: Selection)
        ensures
            res@ == spec_normalized(self@),
        decreases self,
    {
        match self {
            Selection::And(subselections) => {
                let ghost subs = subselections@;
                let ghost models = self@->And_0;
                assert(subs.len() == subselections.len());
                let mut rest = reversed(subselections);
                let mut top: Vec<Selection> = Vec::new();
                let mut k: usize = 0;
                while rest.len() > 0
                    invariant
                        k + rest.len() == subs.len(),
                        rest@ == subs.reverse().subrange(0, rest.len() as int),
                        models.len() == subs.len(),
                        forall|i: int| 0 <= i < subs.len() ==> models[i] == subs[i]@,
                        forall|i: int| 0 <= i < subs.len() ==> decreases_to!(self => subs[i]),
                        subs.len() <= usize::MAX,
                        top.len() == conjuncts_upto(models, k as nat).len(),
                        forall|i: int|
                            0 <= i < top.len() ==> top[i]@ == conjuncts_upto(models, k as nat)[i],
                    decreases rest.len(),
                {
                    let sub = rest.pop().unwrap();
                    assert(sub == subs[k as int]);
                    let normalized_sub = sub.normalized();
                    match normalized_sub {
                        Selection::And(mut nested) => {
                            assert(Selection::And(nested)@->And_0 =~= conjuncts(models[k as int]));
                            top.append(&mut nested);
                        },
                        // a normal form is a conjunction
                        _ => {},
                    }
                    k += 1;
                }
                assert(Selection::And(top)@->And_0 =~= conjuncts(self@));
                Selection::And(top)
            },
            other => {
                let ghost value = other@;
                let mut single: Vec<Selection> = Vec::new();
                single.push(other);
                assert(Selection::And(single)@->And_0 =~= seq![value]);
                Selection::And(single)
            },
        }
    }

    /// The pairs of columns that the predicates of the top-level conjunction
    /// equate, each pair once; the predicate itself is left as it is.
    pub fn potential_equijoins(&self) -> (res: Vec<(ColRef, ColRef)>)
        requires
            self@ is And,
        ensures
            pairs_model(res@) == equijoins_upto(self@->And_0, self@->And_0.len()),
    {
        let mut out: Vec<(ColRef, ColRef)> = Vec::new();
        match self {
            Selection::And(selections) => {
                let ghost models = self@->And_0;
                let mut k: usize = 0;
                while k < selections.len()
                    invariant
                        k <= selections.len(),
                        models.len() == selections.len(),
                        forall|i: int| 0 <= i < selections.len() ==> models[i] == selections[i]@,
                        pairs_model(out@) == equijoins_upto(models, k as nat),
                    decreases selections.len() - k,
                {
                    let ghost found = pairs_model(out@);
                    match &selections[k] {
                        Selection::Eq(l, r) => match operands(l, r) {
                            Operands::ColCol(a, b) => {
                                if !pairs_contain(&out, a, b) {
                                    out.push((a.clone(), b.clone()));
                                    assert(pairs_model(out@) =~= found.push((a@, b@)));
                                }
                            },
                            _ => {},
                        },
                        _ => {},
                    }
                    k += 1;
                }
            },
            _ => {},
        }
        out
    }

    /// Places on `op` one filter for each predicate that is not already
    /// guaranteed by the join order whose equalities `existing_equalities` holds.
    pub fn apply_filter_ops(&self, op: Op, existing_equalities: &EqualityFactSet) -> (res: Result<
        Op,
        PlanError,
    >)
        ensures
            outcome_model(res) == spec_apply_filters(self@, op@, existing_equalities.relation()),
        decreases self,
    {
        match self {
            Selection::Identity(_) => Err(PlanError::UnsupportedPredicate),
            Selection::Const(_) => Err(PlanError::UnsupportedPredicate),
            Selection::And(subfilters) => {
                let ghost models = self@->And_0;
                let ghost bottom = op@;
                let mut top = op;
                let mut k: usize = 0;
                while k < subfilters.len()
                    invariant
                        k <= subfilters.len(),
                        self@ == SelSpec::And(models),
                        bottom == op@,
                        models.len() == subfilters.len(),
                        forall|i: int| 0 <= i < subfilters.len() ==> models[i] == subfilters[i]@,
                        forall|i: int|
                            0 <= i < subfilters.len() ==> decreases_to!(self => subfilters[i]),
                        spec_apply_filters_upto(
                            models,
                            k as nat,
                            bottom,
                            existing_equalities.relation(),
                        ) == Ok::<PlanSpec, PlanError>(top@),
                    decreases subfilters.len() - k,
                {
                    match subfilters[k].apply_filter_ops(top, existing_equalities) {
                        Ok(above) => {
                            top = above;
                        },
                        Err(e) => {
                            proof {
                                assert(spec_apply_filters_upto(
                                    models,
                                    (k + 1) as nat,
                                    bottom,
                                    existing_equalities.relation(),
                                ) == Err::<PlanSpec, PlanError>(e));
                                lemma_apply_filters_fails(
                                    models,
                                    (k + 1) as nat,
                                    models.len(),
                                    bottom,
                                    existing_equalities.relation(),
                                );
                            }
                            return Err(e);
                        },
                    }
                    k += 1;
                }
                Ok(top)
            },
            Selection::Eq(l, r) => match operands(l, r) {
                Operands::ColConst(c, v) => compose_binary_filter("==", op, c, v),
                Operands::ConstCol(v, c) => compose_binary_filter("==", op, c, v),
                Operands::ColCol(a, b) => {
                    if existing_equalities.are_equal(a, b) {
                        Ok(op)
                    } else {
                        Err(PlanError::UnsatisfiableEquality)
                    }
                },
                Operands::Other => Err(PlanError::UnsupportedPredicate),
            },
            Selection::NotEq(l, r) => compose_comparison(op, l, r, "!=", "!="),
            Selection::Lt(l, r) => compose_comparison(op, l, r, "<", ">"),
            Selection::Gt(l, r) => compose_comparison(op, l, r, ">", "<"),
            Selection::LtEq(l, r) => compose_comparison(op, l, r, "<=", ">="),
            Selection::GtEq(l, r) => compose_comparison(op, l, r, ">=", "<="),
        }
    }
}

/// Once a predicate has failed, the predicates after it change nothing.
proof fn lemma_apply_filters_fails(
    subs: Seq<SelSpec>,
    k: nat,
    n: nat,
    op: PlanSpec,
    known: spec_fn(ColSpec, ColSpec) -> bool,
)
    requires
        k <= n <= subs.len(),
        spec_apply_filters_upto(subs, k, op, known) is Err,
    ensures
        spec_apply_filters_upto(subs, n, op, known) == spec_apply_filters_upto(subs, k, op, known),
    decreases n - k,
{
    if k < n {
        lemma_apply_filters_fails(subs, k, (n - 1) as nat, op, known);
    }
}

/// Whether the pair `(a, b)` is listed in `pairs`.
fn pairs_contain(pairs: &Vec<(ColRef, ColRef)>, a: &ColRef, b: &ColRef) -> (res: bool)
    ensures
        res == pairs_model(pairs@).contains((a@, b@)),
{
    let mut i: usize = 0;
    while i < pairs.len()
        invariant
            i <= pairs.len(),
            forall|j: int| 0 <= j < i ==> pairs_model(pairs@)[j] != (a@, b@),
        decreases pairs.len() - i,
    {
        if pairs[i].0 == *a && pairs[i].1 == *b {
            assert(pairs_model(pairs@)[i as int] == (a@, b@));
            return true;
        }
        i += 1;
    }
    false
}

} // verus!
