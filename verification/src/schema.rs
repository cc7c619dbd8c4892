use vstd::prelude::*;
use crate::error::PlanError;
use crate::metadata::{MetaTableDef, MetaType};
use crate::ops::{ColRef, ColSpec};

verus! {

/// The values of a list of column references, in order.
pub open spec fn cols_model(cols: Seq<ColRef>) -> Seq<ColSpec> {
    cols.map_values(|c: ColRef| c@)
}

/// The columns of a stored table, each under the alias `alias`.
pub open spec fn table_columns(columns: Seq<(Seq<char>, MetaType)>, alias: Seq<char>) -> Seq<ColSpec> {
    columns.map_values(|c: (Seq<char>, MetaType)| ColSpec::Table { table: alias, column: c.0 })
}

/// Every column logically reachable from a subtree, independent of physical layout.
#[derive(Debug, Clone, PartialEq, Eq)]
pub struct VirtualSchema {
    pub columns: Vec<ColRef>,
}

/// The physical output columns of a node, in the order of its physical fields.
#[derive(Debug, Clone, PartialEq, Eq)]
pub struct LocalSchema {
    pub columns: Vec<ColRef>,
}

impl View for VirtualSchema {
    type V = Seq<ColSpec>;

    open spec fn view(&self) -> Seq<ColSpec> {
        cols_model(self.columns@)
    }
}

impl View for LocalSchema {
    type V = Seq<ColSpec>;

    open spec fn view(&self) -> Seq<ColSpec> {
        cols_model(self.columns@)
    }
}

/// The value of a local schema that may not have been assigned yet.
pub open spec fn opt_schema_model(ls: Option<LocalSchema>) -> Option<Seq<ColSpec>> {
    match ls {
        Some(l) => Some(l@),
        None => None,
    }
}

/// The value of an optional string.
pub open spec fn opt_string_model(s: Option<String>) -> Option<Seq<char>> {
    match s {
        Some(t) => Some(t@),
        None => None,
    }
}

/// Copies a list of column references.
pub fn clone_cols(cols: &[ColRef]) -> (res: Vec<ColRef>)
    ensures
        cols_model(res@) == cols_model(cols@),
{
    let mut res: Vec<ColRef> = Vec::new();
    let mut i: usize = 0;
    while i < cols.len()
        invariant
            i <= cols.len(),
            res.len() == i,
            forall|j: int| 0 <= j < i ==> res[j]@ == cols[j]@,
        decreases cols.len() - i,
    {
        res.push(cols[i].clone());
        i += 1;
    }
    assert(cols_model(res@) =~= cols_model(cols@));
    res
}

/// Whether `col` occurs in `cols`.
pub fn cols_contain(cols: &[ColRef], col: &ColRef) -> (res: bool)
    ensures
        res == cols_model(cols@).contains(col@),
{
    let mut i: usize = 0;
    while i < cols.len()
        invariant
            i <= cols.len(),
            forall|j: int| 0 <= j < i ==> cols[j]@ != col@,
        decreases cols.len() - i,
    {
        if cols[i] == *col {
            assert(cols_model(cols@)[i as int] == col@);
            return true;
        }
        i += 1;
    }
    false
}

impl LocalSchema {
    /// The physical position of `colref`: the index of its first occurrence.
    /// Fails with `ColumnNotFound` where the schema does not hold the column, or
    /// holds it at no position that 32 bits can express.
    pub fn get_field_idx(&self, colref: &ColRef) -> (res: Result<u32, PlanError>)
        ensures
            match res {
                Ok(i) => self@.index_of_first(colref@) == Some(i as int),
                Err(e) => e == PlanError::ColumnNotFound && match self@.index_of_first(colref@) {
                    Some(i) => i > u32::MAX,
                    None => true,
                },
            },
    {
        proof {
            self@.index_of_first_ensures(colref@);
        }
        let mut i: usize = 0;
        while i < self.columns.len()
            invariant
                i <= self.columns.len(),
                forall|j: int| 0 <= j < i ==> self@[j] != colref@,
            decreases self.columns.len() - i,
        {
            if *colref == self.columns[i] {
                proof {
                    assert(self@[i as int] == colref@);
                    self@.index_of_first_ensures(colref@);
                }
                if i > 0xffff_ffff {
                    return Err(PlanError::ColumnNotFound);
                }
                return Ok(i as u32);
            }
            i += 1;
        }
        Err(PlanError::ColumnNotFound)
    }
}

impl VirtualSchema {
    /// Whether the subtree can supply `colref`.
    pub fn contains(&self, colref: &ColRef) -> (res: bool)
        ensures
            res == self@.contains(colref@),
    {
        cols_contain(self.columns.as_slice(), colref)
    }

    /// The columns of a stored table under the alias `table_alias`.
    pub fn from_meta_table(meta_schema: &MetaTableDef, table_alias: &str) -> (res: VirtualSchema)
        ensures
            res@ == table_columns(meta_schema@.columns, table_alias@),
    {
        let mut columns: Vec<ColRef> = Vec::new();
        let mut i: usize = 0;
        while i < meta_schema.schema.columns.len()
            invariant
                i <= meta_schema.schema.columns.len(),
                columns.len() == i,
                forall|j: int|
                    0 <= j < i ==> columns[j]@ == (ColSpec::Table {
                        table: table_alias@,
                        column: meta_schema.schema.columns[j].0@,
                    }),
            decreases meta_schema.schema.columns.len() - i,
        {
            columns.push(
                ColRef::TableRef {
                    table: table_alias.to_owned(),
                    column: meta_schema.schema.columns[i].0.clone(),
                },
            );
            i += 1;
        }
        assert(cols_model(columns@) =~= table_columns(meta_schema@.columns, table_alias@));
        VirtualSchema { columns }
    }

    /// A virtual schema made of exactly the given columns.
    pub fn from_custom(columns: Vec<ColRef>) -> (res: VirtualSchema)
        ensures
            res@ == cols_model(columns@),
    {
        VirtualSchema { columns }
    }

    /// The columns of `schema1` followed by those of `schema2`.
    pub fn cat(schema1: &VirtualSchema, schema2: &VirtualSchema) -> (res: VirtualSchema)
        ensures
            res@ == schema1@ + schema2@,
    {
        let mut columns = clone_cols(schema1.columns.as_slice());
        let mut rest = clone_cols(schema2.columns.as_slice());
        columns.append(&mut rest);
        assert(cols_model(columns@) =~= schema1@ + schema2@);
        VirtualSchema { columns }
    }
}

} // verus!
