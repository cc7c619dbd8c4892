use vstd::prelude::*;
use vstd::string::*;
use crate::ops::{AggFunc, ColRef, ColSpec, NodeSpec, Op, PlanSpec};
use crate::schema::cols_model;
use crate::text::{decimal, decimal_string};

verus! {

/// The name of an aggregate function in a readable plan.
pub open spec fn spec_func_text(func: AggFunc) -> Seq<char> {
    match func {
        AggFunc::Sum => "Sum"@,
        AggFunc::Count => "Count"@,
    }
}

/// A column in a readable plan: `table.column`, or the aggregate function with
/// its column in parentheses.
pub open spec fn spec_col_text(c: ColSpec) -> Seq<char>
    decreases c,
{
    match c {
        ColSpec::Table { table, column } => table + "."@ + column,
        ColSpec::Aggregate { func, source } => spec_func_text(func) + "("@ + spec_col_text(*source)
            + ")"@,
    }
}

/// The first `k` columns of a list, separated by a comma and a blank.
pub open spec fn spec_cols_joined(cols: Seq<ColSpec>, k: nat) -> Seq<char>
    decreases k,
{
    if k == 0 || k > cols.len() {
        Seq::empty()
    } else if k == 1 {
        spec_col_text(cols[0])
    } else {
        spec_cols_joined(cols, (k - 1) as nat) + ", "@ + spec_col_text(cols[k - 1])
    }
}

/// A list of columns in a readable plan, in square brackets.
pub open spec fn spec_cols_text(cols: Seq<ColSpec>) -> Seq<char> {
    "["@ + spec_cols_joined(cols, cols.len()) + "]"@
}

/// The text with eight blanks after every line break.
pub open spec fn spec_indent(s: Seq<char>) -> Seq<char>
    decreases s.len(),
{
    if s.len() == 0 {
        Seq::empty()
    } else if s.last() == '\n' {
        spec_indent(s.drop_last()) + "\n        "@
    } else {
        spec_indent(s.drop_last()).push(s.last())
    }
}

/// The readable form of a plan: one line for each operator, the inputs of a
/// join indented below it.
pub open spec fn spec_explain(op: PlanSpec) -> Seq<char>
    decreases op,
{
    match op.node {
        NodeSpec::Scan { file, tab_name, .. } => "Scan (table="@ + tab_name + ", file="@ + file
            + ")"@,
        NodeSpec::Join { build, build_attr, probe, probe_attr } => "HashJoin ("@ + spec_col_text(
            build_attr,
        ) + " == "@ + spec_col_text(probe_attr) + ")\n(build)>"@ + spec_indent(
            spec_explain(*build),
        ) + "\n(probe)>"@ + spec_indent(spec_explain(*probe)),
        NodeSpec::Filter { input, op: sym, field, value } => "Filter ("@ + spec_col_text(field)
            + " "@ + sym + " "@ + value + ")\n"@ + spec_explain(*input),
        NodeSpec::Projection { input, projection } => "Projection ("@ + spec_cols_text(projection)
            + ")\n"@ + spec_explain(*input),
        NodeSpec::AggGroup { input, grouping, agg_field } => "AggGroup (grouping="@
            + spec_cols_text(grouping) + ", agg_field="@ + spec_col_text(agg_field) + ")\n"@
            + spec_explain(*input),
        NodeSpec::SortLimit { input, order_columns, limit, .. } => "SortLimit (order_by="@
            + spec_cols_text(order_columns) + ", limit="@ + decimal(limit as nat) + ")\n"@
            + spec_explain(*input),
        NodeSpec::SubqueryProj { input } => spec_explain(*input),
    }
}

fn _indent_str(s: &str) -> (res: String)
    ensures
        res@ == spec_indent(s@),
{
    let len: usize = s.unicode_len();
    let mut res = String::new();
    let mut i: usize = 0;
    assert(s@.subrange(0, 0) =~= Seq::<char>::empty());
    while i < len
        invariant
            i <= len,
            len == s@.len(),
            res@ == spec_indent(s@.subrange(0, i as int)),
        decreases len - i,
    {
        let ghost next = s@.subrange(0, i + 1);
        assert(next.drop_last() =~= s@.subrange(0, i as int));
        if s.get_char(i) == '\n' {
            res.append("\n        ");
        } else {
            let one = s.substring_char(i, i + 1);
            assert(one@ =~= seq![s@[i as int]]);
            res.append(one);
            assert(res@ =~= spec_indent(next));
        }
        i += 1;
    }
    assert(s@.subrange(0, len as int) =~= s@);
    res
}

impl ColRef {
    /// The column as a readable plan shows it.
    pub fn to_string(&self) -> (res: String)
        ensures
            res@ == spec_col_text(self@),
        decreases self,
    {
        match self {
            ColRef::TableRef { table, column } => {
                let mut res = table.clone();
                res.append(".");
                res.append(column.as_str());
                res
            },
            ColRef::AggregateRef { func, source } => {
                let mut res = match func {
                    AggFunc::Sum => "Sum".to_owned(),
                    AggFunc::Count => "Count".to_owned(),
                };
                res.append("(");
                res.append(source.to_string().as_str());
                res.append(")");
                res
            },
        }
    }
}

fn _fmt_colref_slice(slice: &[ColRef]) -> (res: String)
    ensures
        res@ == spec_cols_text(cols_model(slice@)),
{
    let ghost cols = cols_model(slice@);
    let mut res = "[".to_owned();
    let mut k: usize = 0;
    while k < slice.len()
        invariant
            k <= slice.len(),
            cols == cols_model(slice@),
            res@ == "["@ + spec_cols_joined(cols, k as nat),
        decreases slice.len() - k,
    {
        if k > 0 {
            res.append(", ");
        }
        res.append(slice[k].to_string().as_str());
        assert(res@ =~= "["@ + spec_cols_joined(cols, (k + 1) as nat));
        k += 1;
    }
    res.append("]");
    res
}

impl Op {
    /// The readable form of the plan.
    pub fn to_string(&self) -> (res: String)
        ensures
            res@ == spec_explain(self@),
        decreases self,
    {
        match self {
            Op::ScanOp(op) => {
                let mut res = "Scan (table=".to_owned();
                res.append(op.tab_name.as_str());
                res.append(", file=");
                res.append(op.file.as_str());
                res.append(")");
                res
            },
            Op::JoinOp(op) => {
                let mut res = "HashJoin (".to_owned();
                res.append(op.build_join_attribute.to_string().as_str());
                res.append(" == ");
                res.append(op.probe_join_attribute.to_string().as_str());
                res.append(")\n(build)>");
                res.append(_indent_str(op.build.to_string().as_str()).as_str());
                res.append("\n(probe)>");
                res.append(_indent_str(op.probe.to_string().as_str()).as_str());
                res
            },
            Op::FilterOp(op) => {
                let mut res = "Filter (".to_owned();
                res.append(op.field.to_string().as_str());
                res.append(" ");
                res.append(op.op.as_str());
                res.append(" ");
                res.append(op.value.as_str());
                res.append(")\n");
                res.append(op.input.to_string().as_str());
                res
            },
            Op::ProjectionOp(op) => {
                let mut res = "Projection (".to_owned();
                res.append(_fmt_colref_slice(op.projection.as_slice()).as_str());
                res.append(")\n");
                res.append(op.input.to_string().as_str());
                res
            },
            Op::AggGroupOp(op) => {
                let mut res = "AggGroup (grouping=".to_owned();
                res.append(_fmt_colref_slice(op.grouping.as_slice()).as_str());
                res.append(", agg_field=");
                res.append(op.agg_field.to_string().as_str());
                res.append(")\n");
                res.append(op.input.to_string().as_str());
                res
            },
            Op::SortLimitOp(op) => {
                let mut res = "SortLimit (order_by=".to_owned();
                res.append(_fmt_colref_slice(op.order_columns.as_slice()).as_str());
                res.append(", limit=");
                res.append(decimal_string(op.limit).as_str());
                res.append(")\n");
                res.append(op.input.to_string().as_str());
                res
            },
            Op::SubqueryProjOp(op) => op.input.to_string(),
        }
    }
}

} // verus!
