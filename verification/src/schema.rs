//! Reading the description of a database from a MySQL server: the statements
//! to send, and what their answers mean. Sending them is left to the caller.

use crate::info::{ColumnInfo, ColumnInfoView, ColumnType};
use crate::pattern::{is_match, regex_is_match, regex_replace_first, replace_first};
use crate::text::same_text;
use vstd::prelude::*;
use vstd::string::StringExecFns;

verus! {

/// A statement made of `head`, the name between backquotes, and nothing more.
pub open spec fn quoted_statement(head: Seq<char>, name: Seq<char>) -> Seq<char> {
    head + "`"@ + name + "`"@
}

fn statement(head: &str, name: &str) -> (r: String)
    ensures
        r@ == quoted_statement(head@, name@),
{
    let mut r = String::from_str(head);
    r.append("`");
    r.append(name);
    r.append("`");
    r
}

/// The statement that asks how a database was created.
pub fn show_create_database(db_name: &str) -> (r: String)
    ensures
        r@ == quoted_statement("SHOW CREATE DATABASE "@, db_name@),
{
    statement("SHOW CREATE DATABASE ", db_name)
}

/// The statement that asks for the tables of a database.
pub fn show_tables(db_name: &str) -> (r: String)
    ensures
        r@ == quoted_statement("SHOW TABLES FROM "@, db_name@),
{
    statement("SHOW TABLES FROM ", db_name)
}

/// The statement that asks how a table was created.
pub fn show_create_table(table_name: &str) -> (r: String)
    ensures
        r@ == quoted_statement("SHOW CREATE TABLE "@, table_name@),
{
    statement("SHOW CREATE TABLE ", table_name)
}

/// The statement that asks for the columns of a table.
pub fn show_full_columns(table_name: &str) -> (r: String)
    ensures
        r@ == quoted_statement("SHOW FULL COLUMNS FROM "@, table_name@),
{
    statement("SHOW FULL COLUMNS FROM ", table_name)
}

/// The text with the first match of `what` replaced by `what` followed by
/// ` IF NOT EXISTS`.
pub open spec fn if_not_exists(sql: Seq<char>, what: Seq<char>) -> Seq<char> {
    match regex_replace_first(what, sql, what + " IF NOT EXISTS"@) {
        Some(replaced) => replaced,
        None => sql,
    }
}

fn guard_creation(sql: &str, what: &str) -> (r: String)
    ensures
        r@ == if_not_exists(sql@, what@),
{
    let mut with = String::from_str(what);
    with.append(" IF NOT EXISTS");
    match replace_first(what, sql, with.as_str()) {
        Some(replaced) => replaced,
        None => String::from_str(sql),
    }
}

/// Makes the statement that creates a database harmless where the database
/// exists already.
pub fn create_database_if_missing(sql: &str) -> (r: String)
    ensures
        r@ == if_not_exists(sql@, "CREATE DATABASE"@),
{
    guard_creation(sql, "CREATE DATABASE")
}

/// Makes the statement that creates a table harmless where the table exists
/// already.
pub fn create_table_if_missing(sql: &str) -> (r: String)
    ensures
        r@ == if_not_exists(sql@, "CREATE TABLE"@),
{
    guard_creation(sql, "CREATE TABLE")
}

/// The kind of a column, from whether the name of its type looks like an
/// integer type and whether it looks like a floating-point type. An integer
/// type is `INT`, else a floating-point type is `FLOAT`, everything else is
/// `STRING`.
pub open spec fn kind_of_matches(int_like: Option<bool>, float_like: Option<bool>) -> ColumnType {
    if int_like == Some(true) {
        ColumnType::INT
    } else if float_like == Some(true) {
        ColumnType::FLOAT
    } else {
        ColumnType::STRING
    }
}

/// The kind of a column, from whether the name of its type looks like an
/// integer type and whether it looks like a floating-point type.
pub fn column_type_from_matches(int_like: Option<bool>, float_like: Option<bool>) -> (r: ColumnType)
    ensures
        r == kind_of_matches(int_like, float_like),
{
    match int_like {
        Some(true) => ColumnType::INT,
        _ => match float_like {
            Some(true) => ColumnType::FLOAT,
            _ => ColumnType::STRING,
        },
    }
}

/// The kind of a column whose type has the given name: the name looks like an
/// integer type where `.*(int|bit).*` matches it, and like a floating-point
/// type where `.*(float|dec|numeric|double).*` matches it.
pub open spec fn column_kind(column_type: Seq<char>) -> ColumnType {
    kind_of_matches(
        regex_is_match(".*(int|bit).*"@, column_type),
        regex_is_match(".*(float|dec|numeric|double).*"@, column_type),
    )
}

/// Tells the kind of a column from the name of its type.
pub fn parse_column_type(column_type: &str) -> (r: ColumnType)
    ensures
        r == column_kind(column_type@),
{
    let int_like = is_match(".*(int|bit).*", column_type);
    let float_like = is_match(".*(float|dec|numeric|double).*", column_type);
    column_type_from_matches(int_like, float_like)
}

/// The description of a column, from one row of the answer to
/// `SHOW FULL COLUMNS`: the column can be null where the answer says `YES`, it
/// is the primary key where the answer says `PRI`, and its default is empty
/// where the answer has none.
pub open spec fn column_of_row(
    name: Seq<char>,
    column_type: Seq<char>,
    null: Seq<char>,
    key: Seq<char>,
    default: Option<Seq<char>>,
    comment: Seq<char>,
) -> ColumnInfoView {
    ColumnInfoView {
        name,
        type_: column_kind(column_type),
        nullable: null == "YES"@,
        default: match default {
            Some(text) => text,
            None => Seq::empty(),
        },
        comment,
        primary_key: key == "PRI"@,
    }
}

/// Makes the description of a column from one row of the answer to
/// `SHOW FULL COLUMNS`.
pub fn column_info(
    name: String,
    column_type: &str,
    null: &str,
    key: &str,
    default: Option<String>,
    comment: String,
) -> (r: ColumnInfo)
    ensures
        r@ == column_of_row(
            name@,
            column_type@,
            null@,
            key@,
            match default {
                Some(text) => Some(text@),
                None => None,
            },
            comment@,
        ),
{
    ColumnInfo {
        name,
        type_: parse_column_type(column_type),
        nullable: same_text(null, "YES"),
        default: match default {
            Some(text) => text,
            None => String::new(),
        },
        comment,
        primary_key: same_text(key, "PRI"),
    }
}

} // verus!
