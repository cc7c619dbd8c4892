use vstd::prelude::*;

verus! {

/// Scalar type of a stored column.
#[allow(clippy::upper_case_acronyms)]
#[derive(Debug, Clone, Copy, PartialEq, Eq, Structural)]
pub enum MetaType {
    LONG,
    DEC,
}

/// Ordered column list of a table: name and scalar type of each column.
#[derive(Debug)]
pub struct MetaSchema {
    pub columns: Vec<(String, MetaType)>,
}

/// One table known to the planner.
#[derive(Debug)]
pub struct MetaTableDef {
    pub name: String,
    pub file: String,
    pub filetype: String,
    pub schema: MetaSchema,
}

/// Everything the planner knows about the stored tables.
#[derive(Debug)]
pub struct Metadata {
    pub path: String,
    pub buffsize: u64,
    pub tables: Vec<MetaTableDef>,
}

/// Mathematical value of a table definition.
pub struct TableSpec {
    pub name: Seq<char>,
    pub file: Seq<char>,
    pub filetype: Seq<char>,
    pub columns: Seq<(Seq<char>, MetaType)>,
}

/// Mathematical value of the metadata.
pub struct MetadataSpec {
    pub path: Seq<char>,
    pub buffsize: u64,
    pub tables: Seq<TableSpec>,
}

impl View for MetaSchema {
    type V = Seq<(Seq<char>, MetaType)>;

    open spec fn view(&self) -> Seq<(Seq<char>, MetaType)> {
        self.columns@.map_values(|c: (String, MetaType)| (c.0@, c.1))
    }
}

impl View for MetaTableDef {
    type V = TableSpec;

    open spec fn view(&self) -> TableSpec {
        TableSpec {
            name: self.name@,
            file: self.file@,
            filetype: self.filetype@,
            columns: self.schema@,
        }
    }
}

impl View for Metadata {
    type V = MetadataSpec;

    open spec fn view(&self) -> MetadataSpec {
        MetadataSpec {
            path: self.path@,
            buffsize: self.buffsize,
            tables: self.tables@.map_values(|t: MetaTableDef| t@),
        }
    }
}

/// The table definition built into the planner for `LINEITEM`.
pub open spec fn default_lineitem() -> TableSpec {
    TableSpec {
        name: "LINEITEM"@,
        file: "lineitem.tbl.bz2"@,
        filetype: "text"@,
        columns: seq![
            ("OKEY"@, MetaType::LONG),
            ("PKEY"@, MetaType::LONG),
            ("PRICE"@, MetaType::DEC),
        ],
    }
}

/// The table definition built into the planner for `ORDERS`.
pub open spec fn default_orders() -> TableSpec {
    TableSpec {
        name: "ORDERS"@,
        file: "order.tbl.bz2"@,
        filetype: "text"@,
        columns: seq![("OKEY"@, MetaType::LONG), ("ZIP"@, MetaType::LONG)],
    }
}

/// The table definition built into the planner for `PART`.
pub open spec fn default_part() -> TableSpec {
    TableSpec {
        name: "PART"@,
        file: "part.tbl"@,
        filetype: "text"@,
        columns: seq![("PKEY"@, MetaType::LONG), ("COST"@, MetaType::DEC)],
    }
}

/// The metadata used when no metadata file is given.
pub open spec fn default_metadata() -> MetadataSpec {
    MetadataSpec {
        path: "drivers/sample_queries/data/"@,
        buffsize: 1048576,
        tables: seq![default_lineitem(), default_orders(), default_part()],
    }
}

fn column(name: &str, ty: MetaType) -> (res: (String, MetaType))
    ensures
        res.0@ == name@,
        res.1 == ty,
{
    (name.to_owned(), ty)
}

impl Metadata {
    /// The built-in sample tables `LINEITEM`, `ORDERS` and `PART`.
    pub fn from_default() -> (res: Metadata)
        ensures
            res@ == default_metadata(),
    {
        let lineitem = MetaTableDef {
            name: "LINEITEM".to_owned(),
            file: "lineitem.tbl.bz2".to_owned(),
            filetype: "text".to_owned(),
            schema: MetaSchema {
                columns: vec![
                    column("OKEY", MetaType::LONG),
                    column("PKEY", MetaType::LONG),
                    column("PRICE", MetaType::DEC),
                ],
            },
        };
        let orders = MetaTableDef {
            name: "ORDERS".to_owned(),
            file: "order.tbl.bz2".to_owned(),
            filetype: "text".to_owned(),
            schema: MetaSchema {
                columns: vec![column("OKEY", MetaType::LONG), column("ZIP", MetaType::LONG)],
            },
        };
        let part = MetaTableDef {
            name: "PART".to_owned(),
            file: "part.tbl".to_owned(),
            filetype: "text".to_owned(),
            schema: MetaSchema {
                columns: vec![column("PKEY", MetaType::LONG), column("COST", MetaType::DEC)],
            },
        };
        assert(lineitem@.columns =~= default_lineitem().columns);
        assert(orders@.columns =~= default_orders().columns);
        assert(part@.columns =~= default_part().columns);
        let res = Metadata {
            path: "drivers/sample_queries/data/".to_owned(),
            buffsize: 1048576,
            tables: vec![lineitem, orders, part],
        };
        assert(res@.tables =~= default_metadata().tables);
        res
    }
}

} // verus!
