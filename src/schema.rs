use vstd::prelude::*;
use crate::text::{decimal, push_decimal};

verus! {

/// Column types of the target database.
#[derive(Debug, Clone, Copy, PartialEq, Eq, Structural)]
pub enum Types {
    Int8,
    Int16,
    Int32,
    Int64,
    Int128,
    Int256,
    UInt8,
    UInt16,
    UInt32,
    UInt64,
    UInt128,
    UInt256,
    Float32,
    Float64,
    Decimal32,
    Decimal64,
    Decimal128,
    Decimal256,
    Varchar(u16),
    UUID,
    Date,
    Date32,
    DateTime(u8),
    DateTime64(u8),
    Enum,
}

/// The name of a column type as it is written in a table definition.
pub open spec fn sql_type_text(t: Types) -> Seq<char> {
    match t {
        Types::Int8 => "Int8"@,
        Types::Int16 => "Int16"@,
        Types::Int32 => "Int32"@,
        Types::Int64 => "Int64"@,
        Types::Int128 => "Int128"@,
        Types::Int256 => "Int256"@,
        Types::UInt8 => "UInt8"@,
        Types::UInt16 => "UInt16"@,
        Types::UInt32 => "UInt32"@,
        Types::UInt64 => "UInt64"@,
        Types::UInt128 => "UInt128"@,
        Types::UInt256 => "UInt256"@,
        Types::Float32 => "Float32"@,
        Types::Float64 => "Float64"@,
        Types::Decimal32 => "Decimal32"@,
        Types::Decimal64 => "Decimal64"@,
        Types::Decimal128 => "Decimal128"@,
        Types::Decimal256 => "Decimal256"@,
        Types::Varchar(n) => "VARCHAR("@ + decimal(n as nat) + ")"@,
        Types::UUID => "UUID"@,
        Types::Date => "Date"@,
        Types::Date32 => "Date32"@,
        Types::DateTime(p) => "DateTime("@ + decimal(p as nat) + ")"@,
        Types::DateTime64(p) => "DateTime64("@ + decimal(p as nat) + ")"@,
        Types::Enum => "Enum"@,
    }
}

fn parameterised(name: &str, n: u64) -> (r: String)
    ensures
        r@ == name@ + decimal(n as nat) + ")"@,
{
    let mut r = name.to_owned();
    push_decimal(&mut r, n);
    r.append(")");
    r
}

impl Types {
    /// The name of this type as it is written in a table definition.
    pub fn as_str(&self) -> (r: String)
        ensures
            r@ == sql_type_text(*self),
    {
        match *self {
            Types::Int8 => "Int8".to_owned(),
            Types::Int16 => "Int16".to_owned(),
            Types::Int32 => "Int32".to_owned(),
            Types::Int64 => "Int64".to_owned(),
            Types::Int128 => "Int128".to_owned(),
            Types::Int256 => "Int256".to_owned(),
            Types::UInt8 => "UInt8".to_owned(),
            Types::UInt16 => "UInt16".to_owned(),
            Types::UInt32 => "UInt32".to_owned(),
            Types::UInt64 => "UInt64".to_owned(),
            Types::UInt128 => "UInt128".to_owned(),
            Types::UInt256 => "UInt256".to_owned(),
            Types::Float32 => "Float32".to_owned(),
            Types::Float64 => "Float64".to_owned(),
            Types::Decimal32 => "Decimal32".to_owned(),
            Types::Decimal64 => "Decimal64".to_owned(),
            Types::Decimal128 => "Decimal128".to_owned(),
            Types::Decimal256 => "Decimal256".to_owned(),
            Types::Varchar(length) => parameterised("VARCHAR(", length as u64),
            Types::UUID => "UUID".to_owned(),
            Types::Date => "Date".to_owned(),
            Types::Date32 => "Date32".to_owned(),
            Types::DateTime(precision) => parameterised("DateTime(", precision as u64),
            Types::DateTime64(precision) => parameterised("DateTime64(", precision as u64),
            Types::Enum => "Enum".to_owned(),
        }
    }
}

/// The definition of one column: `<name> <type>`, then ` NOT NULL` when
/// the column takes no nulls.
pub open spec fn column_text(c: Column) -> Seq<char> {
    c.name@ + " "@ + sql_type_text(c.kind) + if c.nullable {
        Seq::empty()
    } else {
        " NOT NULL"@
    }
}

/// One column of a table definition.
#[derive(Debug, Clone)]
pub struct Column {
    pub name: String,
    pub kind: Types,
    pub nullable: bool,
}

impl Column {
    /// A column that takes nulls.
    pub fn new(name: String, kind: Types) -> (r: Column)
        ensures
            r == (Column { name, kind, nullable: true }),
    {
        Column { name, kind, nullable: true }
    }

    /// This column, taking no nulls.
    pub fn nullable(self) -> (r: Column)
        ensures
            r == (Column { nullable: false, ..self }),
    {
        Column { nullable: false, ..self }
    }

    /// The definition of this column.
    pub fn as_str(&self) -> (r: String)
        ensures
            r@ == column_text(*self),
    {
        let mut r = self.name.clone();
        r.append(" ");
        r.append(self.kind.as_str().as_str());
        if !self.nullable {
            r.append(" NOT NULL");
        }
        r
    }
}

/// The definitions of the first `n` columns, separated by `, `.
pub open spec fn columns_text(cs: Seq<Column>, n: int) -> Seq<char>
    decreases n,
{
    if n <= 0 {
        Seq::empty()
    } else if n == 1 {
        column_text(cs[0])
    } else {
        columns_text(cs, n - 1) + ", "@ + column_text(cs[n - 1])
    }
}

/// The statement that creates a table: `CREATE TABLE`, `IF NOT EXISTS` for
/// a table that may exist already, its name and its columns in parentheses.
pub open spec fn table_text(t: Table) -> Seq<char> {
    (if t.exists {
        "CREATE TABLE IF NOT EXISTS "@
    } else {
        "CREATE TABLE "@
    }) + t.name@ + " ("@ + columns_text(t.columns@, t.columns@.len() as int) + ")"@
}

/// A table definition under construction.
#[derive(Debug, Clone)]
pub struct Table {
    pub name: String,
    pub columns: Vec<Column>,
    pub exists: bool,
}

impl Table {
    /// A table without columns.
    pub fn new(name: String) -> (r: Table)
        ensures
            r.name == name,
            r.columns@.len() == 0,
            !r.exists,
    {
        Table { name, columns: Vec::new(), exists: false }
    }

    /// A table without columns that may exist already (`exists`).
    pub fn new_exists(name: String, exists: bool) -> (r: Table)
        ensures
            r.name == name,
            r.columns@.len() == 0,
            r.exists == exists,
    {
        Table { name, columns: Vec::new(), exists }
    }

    /// This table with a column `name` of type `kind` added last; the column
    /// takes nulls.
    pub fn column(self, name: &str, kind: Types) -> (r: Table)
        ensures
            r.name == self.name,
            r.exists == self.exists,
            r.columns@.len() == self.columns@.len() + 1,
            r.columns@.drop_last() == self.columns@,
            r.columns@.last().name@ == name@,
            r.columns@.last().kind == kind,
            r.columns@.last().nullable,
    {
        let mut t = self;
        t.columns.push(Column::new(name.to_owned(), kind));
        assert(t.columns@.drop_last() =~= self.columns@);
        t
    }

    /// The statement that creates this table.
    pub fn as_str(&self) -> (r: String)
        ensures
            r@ == table_text(*self),
    {
        let mut r = if self.exists {
            "CREATE TABLE IF NOT EXISTS ".to_owned()
        } else {
            "CREATE TABLE ".to_owned()
        };
        r.append(self.name.as_str());
        r.append(" (");
        let ghost head = r@;
        let n = self.columns.len();
        let mut i: usize = 0;
        while i < n
            invariant
                n == self.columns@.len(),
                i <= n,
                r@ == head + columns_text(self.columns@, i as int),
            decreases n - i,
        {
            if i > 0 {
                r.append(", ");
            }
            r.append(self.columns[i].as_str().as_str());
            i += 1;
            assert(r@ =~= head + columns_text(self.columns@, i as int));
        }
        r.append(")");
        r
    }
}

} // verus!
