//! What is known of a database: its tables, their columns, and the three kinds
//! of value that a column can hold.

use vstd::prelude::*;
use vstd::string::StringExecFns;

verus! {

/// The kind of a column's values. Every integer type counts as `INT`, every
/// floating-point and decimal type as `FLOAT`, everything else as `STRING`.
#[derive(Debug, Clone, Copy, PartialEq, Eq, Structural)]
pub enum ColumnType {
    INT,
    STRING,
    FLOAT,
}

/// The description of a column.
pub struct ColumnInfo {
    /// The column's name.
    pub name: String,
    /// The kind of its values.
    pub type_: ColumnType,
    /// Whether the column can be null.
    pub nullable: bool,
    /// The default value.
    pub default: String,
    /// The column's comment.
    pub comment: String,
    /// Whether the column is the primary key.
    pub primary_key: bool,
}

/// The contents of a [`ColumnInfo`].
pub struct ColumnInfoView {
    pub name: Seq<char>,
    pub type_: ColumnType,
    pub nullable: bool,
    pub default: Seq<char>,
    pub comment: Seq<char>,
    pub primary_key: bool,
}

impl View for ColumnInfo {
    type V = ColumnInfoView;

    open spec fn view(&self) -> ColumnInfoView {
        ColumnInfoView {
            name: self.name@,
            type_: self.type_,
            nullable: self.nullable,
            default: self.default@,
            comment: self.comment@,
            primary_key: self.primary_key,
        }
    }
}

/// The description of a table.
pub struct TableInfo {
    /// The table's name.
    pub name: String,
    /// Its columns, in the order of the table.
    pub columns: Vec<ColumnInfo>,
    /// The statement that creates the table.
    pub create: String,
}

/// The contents of a [`TableInfo`].
pub struct TableInfoView {
    pub name: Seq<char>,
    pub columns: Seq<ColumnInfoView>,
    pub create: Seq<char>,
}

impl View for TableInfo {
    type V = TableInfoView;

    open spec fn view(&self) -> TableInfoView {
        TableInfoView {
            name: self.name@,
            columns: self.columns@.map_values(|c: ColumnInfo| c@),
            create: self.create@,
        }
    }
}

/// The description of a database.
pub struct DBInfo {
    /// The database's name.
    pub name: String,
    /// The statement that creates the database.
    pub create: String,
    /// Its tables.
    pub tables: Vec<TableInfo>,
}

/// The contents of a [`DBInfo`].
pub struct DBInfoView {
    pub name: Seq<char>,
    pub create: Seq<char>,
    pub tables: Seq<TableInfoView>,
}

impl View for DBInfo {
    type V = DBInfoView;

    open spec fn view(&self) -> DBInfoView {
        DBInfoView {
            name: self.name@,
            create: self.create@,
            tables: self.tables@.map_values(|t: TableInfo| t@),
        }
    }
}

/// How to reach a MySQL server.
pub struct DBOpt {
    /// The user's name.
    pub user: String,
    /// The user's password.
    pub password: String,
    /// Host name or address of the server.
    pub host: String,
    /// Port of the server.
    pub port: i32,
    /// The database to read.
    pub database: String,
}

/// The C type of a record member of the given kind.
pub open spec fn col_type_text(t: ColumnType) -> Seq<char> {
    match t {
        ColumnType::INT => "int64_t"@,
        ColumnType::STRING => "yb_string_t"@,
        ColumnType::FLOAT => "double"@,
    }
}

/// The C name of the value that stands for "unset" in a member of the given kind.
pub open spec fn col_type_null_text(t: ColumnType) -> Seq<char> {
    match t {
        ColumnType::INT => "YB_INT_NULL"@,
        ColumnType::STRING => "YB_STRING_NULL"@,
        ColumnType::FLOAT => "YB_FLOAT_NULL"@,
    }
}

/// The kind that a C type name stands for, if it is one of the three.
pub open spec fn col_type_of_text(s: Seq<char>) -> Option<ColumnType> {
    if s == "int64_t"@ {
        Some(ColumnType::INT)
    } else if s == "double"@ {
        Some(ColumnType::FLOAT)
    } else if s == "yb_string_t"@ {
        Some(ColumnType::STRING)
    } else {
        None
    }
}

/// The C type of a record member of the given kind.
pub fn gen_col_type_str(t: &ColumnType) -> (r: String)
    ensures
        r@ == col_type_text(*t),
{
    match t {
        ColumnType::INT => String::from_str("int64_t"),
        ColumnType::STRING => String::from_str("yb_string_t"),
        ColumnType::FLOAT => String::from_str("double"),
    }
}

/// The C name of the value that stands for "unset" in a member of the given kind.
pub fn gen_col_type_null_str(t: &ColumnType) -> (r: String)
    ensures
        r@ == col_type_null_text(*t),
{
    match t {
        ColumnType::INT => String::from_str("YB_INT_NULL"),
        ColumnType::STRING => String::from_str("YB_STRING_NULL"),
        ColumnType::FLOAT => String::from_str("YB_FLOAT_NULL"),
    }
}

/// The kind that a C type name stands for, if it is one of the three.
pub fn col_type_of(yo_type: &str) -> (r: Option<ColumnType>)
    ensures
        r == col_type_of_text(yo_type@),
{
    if crate::text::same_text(yo_type, "int64_t") {
        Some(ColumnType::INT)
    } else if crate::text::same_text(yo_type, "double") {
        Some(ColumnType::FLOAT)
    } else if crate::text::same_text(yo_type, "yb_string_t") {
        Some(ColumnType::STRING)
    } else {
        None
    }
}

/// The name of a kind's C type stands for that kind.
pub proof fn lemma_col_type_round_trip(t: ColumnType)
    ensures
        col_type_of_text(col_type_text(t)) == Some(t),
{
    reveal_strlit("int64_t");
    reveal_strlit("double");
    reveal_strlit("yb_string_t");
    assert("int64_t"@.len() == 7);
    assert("double"@.len() == 6);
    assert("yb_string_t"@.len() == 11);
}

} // verus!
