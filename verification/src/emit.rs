//! The generated functions: one for each insert, update and select statement.
//! A generated function builds the statement's text, turns its placeholders
//! into parameters, and runs it as a prepared statement.

use crate::genc::{error_about, GenCError};
use crate::info::{col_type_of, col_type_of_text, ColumnType};
use crate::mapper::{
    content_view, Mapper, MapperView, SqlElement, SqlElementView, StatementView, YoInsert,
    YoResultMap, YoResultMapView, YoResultView, YoSelect, YoSelectView, YoUpdate,
};
use crate::placeholder::{check_placeholders, placeholder_error};
use crate::record::{first_unsupported, unsupported_from, unsupported_type_message};
use crate::render::{
    has_missing_include, lemma_missing_include_is_fatal, render_body, write_sql_gen_stmt,
};
use crate::table::lookup;
use crate::text::{concat_all, concat_prefix, decimal, decimal_text, spaces, spaces_text};
use vstd::prelude::*;
use vstd::string::StringExecFns;

verus! {

/// The start of the loop that turns placeholders into parameters. It walks the
/// text in `cmd`; where `#{` stands it copies the text before it to
/// `prepare_sql`, takes the name up to the next `}`, skips past it, and puts a
/// `?` in place of the whole placeholder.
pub open spec fn prepare_loop_head() -> Seq<char> {
    "    for (int64_t i = 0; i < yb_string_length(cmd); ++i) {\n"@
        + "        if (i < yb_string_length(cmd) - 1 && yb_string_data(cmd)[i] == '#' && yb_string_data(cmd)[i+1] == '{') {\n"@
        + "            yb_string_append_data(prepare_sql, yb_string_data(cmd)+pre, i-pre);\n            pre = i + 2;\n"@
        + "            while (pre < yb_string_length(cmd) && yb_string_data(cmd)[pre] != '}') {\n                ++pre;\n            }\n"@
        + "            yb_string_t val_tmp = yb_string_new();\n            yb_string_ref_data(val_tmp, yb_string_data(cmd)+i+2, pre - i - 2);\n"@
        + "            i = pre;\n"@
        + "            if (pre < yb_string_length(cmd)) {\n                ++pre;\n            }\n"@
        + "            yb_string_append_c_str(prepare_sql, \"?\");\n"@
}

/// The end of the loop, and the statement that copies the text behind the last
/// placeholder.
pub open spec fn prepare_loop_tail() -> Seq<char> {
    "        }\n"@ + "    }\n"@
        + "    yb_string_append_data(prepare_sql, yb_string_data(cmd)+pre, yb_string_length(cmd)-pre);\n"@
}

/// The statements that bind a member of the given kind to the next parameter:
/// an integer and a floating-point member by the address of the member, a text
/// member by its characters and their number.
pub open spec fn bind_lines(property: Seq<char>, kind: ColumnType) -> Seq<char> {
    match kind {
        ColumnType::INT => "\n                bind[bind_num].buffer_type = MYSQL_TYPE_LONGLONG;\n                bind[bind_num].buffer = &n->"@
            + property + ";\n                ++bind_num;\n"@,
        ColumnType::FLOAT => "\n                bind[bind_num].buffer_type = MYSQL_TYPE_DOUBLE;\n                bind[bind_num].buffer = &n->"@
            + property + ";\n                ++bind_num;\n"@,
        ColumnType::STRING => "\n                bind[bind_num].buffer_type = MYSQL_TYPE_STRING;\n                bind[bind_num].buffer = yb_string_data(n->"@
            + property + ");\n                bind[bind_num].buffer_length = yb_string_length(n->"@
            + property + ");\n                ++bind_num;\n"@,
    }
}

/// The line that opens the branch of the field at position `k`. The branches
/// form one chain, so that a name binds the first field that has it.
pub open spec fn branch_open_line(property: Seq<char>, k: int) -> Seq<char> {
    if k == 0 {
        "            if (yb_string_compare_cstr(val_tmp, \""@ + property + "\")) {\n"@
    } else {
        "            else if (yb_string_compare_cstr(val_tmp, \""@ + property + "\")) {\n"@
    }
}

/// The branch of the loop for the field at position `k`: where the name of the
/// placeholder is the name of the field's member, the member is bound.
pub open spec fn bind_branch(field: YoResultView, k: int) -> Seq<char> {
    match col_type_of_text(field.yo_type) {
        Some(kind) => branch_open_line(field.property, k) + bind_lines(field.property, kind)
            + "            }\n"@,
        None => Seq::empty(),
    }
}

/// The branches of the loop, one for each field and in their order.
pub open spec fn bind_branches(fields: Seq<YoResultView>) -> Seq<Seq<char>> {
    Seq::new(fields.len(), |k: int| bind_branch(fields[k], k))
}

/// The statements that turn the placeholders of the text in `cmd` into
/// parameters taken from a record with the given fields.
pub open spec fn prepare_loop_text(fields: Seq<YoResultView>) -> Seq<char> {
    prepare_loop_head() + concat_all(bind_branches(fields)) + prepare_loop_tail()
}

/// Appends the statements that turn placeholders into parameters. A field whose
/// type is none of the three is an error, and then nothing is appended.
pub fn write_cmd_to_prepare_sql(
    mapper_c: &mut String,
    result_map: &YoResultMap,
    table: &Mapper,
) -> (r: Result<(), GenCError>)
    ensures
        match first_unsupported(result_map@.results) {
            Some(i) => r is Err && r.unwrap_err()@ == unsupported_type_message(
                result_map@.results[i].yo_type,
            ) && final(mapper_c)@ == old(mapper_c)@,
            None => r is Ok && final(mapper_c)@ == old(mapper_c)@ + prepare_loop_text(
                result_map@.results,
            ),
        },
{
    let ghost fields = result_map@.results;
    let mut branches = String::new();
    let mut k: usize = 0;
    while k < result_map.results.len()
        invariant
            k <= result_map.results@.len(),
            fields == result_map@.results,
            first_unsupported(fields) == unsupported_from(fields, k as int),
            branches@ == concat_prefix(bind_branches(fields), k as nat),
        decreases result_map.results@.len() - k,
    {
        let row = &result_map.results[k];
        let kind = match col_type_of(row.yo_type.as_str()) {
            Some(kind) => kind,
            None => {
                return Err(error_about("unsupported type: ", row.yo_type.as_str()));
            },
        };
        let mut open = if k == 0 {
            String::from_str("            if (yb_string_compare_cstr(val_tmp, \"")
        } else {
            String::from_str("            else if (yb_string_compare_cstr(val_tmp, \"")
        };
        open.append(row.property.as_str());
        open.append("\")) {\n");
        let bind = match kind {
            ColumnType::INT => {
                let mut b = String::from_str(
                    "\n                bind[bind_num].buffer_type = MYSQL_TYPE_LONGLONG;\n                bind[bind_num].buffer = &n->",
                );
                b.append(row.property.as_str());
                b.append(";\n                ++bind_num;\n");
                b
            },
            ColumnType::FLOAT => {
                let mut b = String::from_str(
                    "\n                bind[bind_num].buffer_type = MYSQL_TYPE_DOUBLE;\n                bind[bind_num].buffer = &n->",
                );
                b.append(row.property.as_str());
                b.append(";\n                ++bind_num;\n");
                b
            },
            ColumnType::STRING => {
                let mut b = String::from_str(
                    "\n                bind[bind_num].buffer_type = MYSQL_TYPE_STRING;\n                bind[bind_num].buffer = yb_string_data(n->",
                );
                b.append(row.property.as_str());
                b.append(");\n                bind[bind_num].buffer_length = yb_string_length(n->");
                b.append(row.property.as_str());
                b.append(");\n                ++bind_num;\n");
                b
            },
        };
        let mut branch = String::from_str(open.as_str());
        branch.append(bind.as_str());
        branch.append("            }\n");
        branches.append(branch.as_str());
        k += 1;
    }
    let mut t = String::from_str("    for (int64_t i = 0; i < yb_string_length(cmd); ++i) {\n");
    t.append(
        "        if (i < yb_string_length(cmd) - 1 && yb_string_data(cmd)[i] == '#' && yb_string_data(cmd)[i+1] == '{') {\n",
    );
    t.append(
        "            yb_string_append_data(prepare_sql, yb_string_data(cmd)+pre, i-pre);\n            pre = i + 2;\n",
    );
    t.append(
        "            while (pre < yb_string_length(cmd) && yb_string_data(cmd)[pre] != '}') {\n                ++pre;\n            }\n",
    );
    t.append(
        "            yb_string_t val_tmp = yb_string_new();\n            yb_string_ref_data(val_tmp, yb_string_data(cmd)+i+2, pre - i - 2);\n",
    );
    t.append("            i = pre;\n");
    t.append("            if (pre < yb_string_length(cmd)) {\n                ++pre;\n            }\n");
    t.append("            yb_string_append_c_str(prepare_sql, \"?\");\n");
    let mut tail = String::from_str("        }\n");
    tail.append("    }\n");
    tail.append(
        "    yb_string_append_data(prepare_sql, yb_string_data(cmd)+pre, yb_string_length(cmd)-pre);\n",
    );
    t.append(branches.as_str());
    t.append(tail.as_str());
    mapper_c.append(t.as_str());
    Ok(())
}

/// What is generated for one statement: the declaration for the header, and
/// the definition for the source file.
pub struct Emitted {
    pub header: Seq<char>,
    pub source: Seq<char>,
}

/// The parameter through which a select hands out its rows, as it stands in the
/// parameter list; nothing for the other statements.
pub open spec fn out_parameter(out: Option<YoResultMapView>) -> Seq<char> {
    match out {
        Some(rows) => ", "@ + rows.type_ + " out"@,
        None => Seq::empty(),
    }
}

/// The declaration of the generated function.
pub open spec fn function_decl(
    id: Seq<char>,
    parameter_type: Seq<char>,
    out: Option<YoResultMapView>,
) -> Seq<char> {
    "int "@ + id + "(MYSQL* conn, "@ + parameter_type + " n"@ + out_parameter(out) + ");\n"@
}

/// The first line of the definition of the generated function.
pub open spec fn function_open(
    id: Seq<char>,
    parameter_type: Seq<char>,
    out: Option<YoResultMapView>,
) -> Seq<char> {
    "int "@ + id + "(MYSQL* conn, "@ + parameter_type + " n"@ + out_parameter(out) + ") {\n"@
}

/// The statements that set up the parameters: room for two for each field of
/// the parameter's record.
pub open spec fn bind_setup(fields: nat) -> Seq<char> {
    "    MYSQL_BIND bind["@ + decimal_text(fields) + "*2];\n"@
        + "    memset(bind, 0, sizeof(MYSQL_BIND)*"@ + decimal_text(fields) + "*2);\n"@
        + "    int bind_num = 0;\n"@
}

/// The statements that set up the columns of the rows of a select; nothing for
/// the other statements.
pub open spec fn bind_out_setup(out: Option<YoResultMapView>) -> Seq<char> {
    match out {
        Some(rows) => "    MYSQL_BIND bind_out["@ + decimal_text(rows.results.len()) + "*2];\n"@
            + "    memset(bind, 0, sizeof(MYSQL_BIND)*"@ + decimal_text(rows.results.len())
            + "*2);\n"@ + "    int bind_out_num = 0;\n"@,
        None => Seq::empty(),
    }
}

/// The statements that prepare, bind, run and close the statement, release the
/// two buffers, and return.
pub open spec fn run_text() -> Seq<char> {
    "    MYSQL_STMT* stmt = mysql_stmt_init(NULL);\n"@
        + "    mysql_stmt_prepare(stmt, yb_string_data(prepare_sql), yb_string_length(prepare_sql));\n"@
        + "    mysql_stmt_bind_param(stmt, bind);\n"@ + "    mysql_stmt_execute(stmt);\n"@
        + "    mysql_stmt_close(stmt);\n"@ + "    yb_string_free(prepare_sql);\n"@
        + "    yb_string_free(cmd);\n"@ + "    return YB_OK;\n}\n\n"@
}

/// The message of the error for a statement whose parameter type is the type of
/// no result map.
pub open spec fn missing_parameter_type_message(parameter_type: Seq<char>) -> Seq<char> {
    "parameter type not found: "@ + parameter_type
}

/// The message of the error for a select whose result map does not exist.
pub open spec fn missing_result_map_message(result_map: Seq<char>) -> Seq<char> {
    "result map not found: "@ + result_map
}

/// What is generated for a statement with the given name, parameter type and
/// body; `out` is the result map of the rows of a select.
///
/// The body must render, the parameter type must be the type of a result map,
/// every field of that result map must have one of the three kinds, and every
/// placeholder in the literal text of the body must name one of these fields.
/// Otherwise the first of these that fails gives the error.
pub open spec fn function_model(
    m: MapperView,
    id: Seq<char>,
    parameter_type: Seq<char>,
    content: Seq<SqlElementView>,
    out: Option<YoResultMapView>,
) -> Result<Emitted, Seq<char>> {
    match render_body(m.sqls, content, spaces_text(4), "cmd"@, 0) {
        Err(message) => Err(message),
        Ok(body) => match lookup(m.type_maps, parameter_type) {
            None => Err(missing_parameter_type_message(parameter_type)),
            Some(parameter) => match first_unsupported(parameter.results) {
                Some(i) => Err(unsupported_type_message(parameter.results[i].yo_type)),
                None => match placeholder_error(m.sqls, content, parameter.results) {
                    Some(message) => Err(message),
                    None => Ok(
                        Emitted {
                            header: function_decl(id, parameter_type, out),
                            source: function_open(id, parameter_type, out)
                                + "    yb_string_t cmd = yb_string_new();\n"@ + body.text
                                + bind_setup(parameter.results.len()) + bind_out_setup(out)
                                + "    yb_string_t prepare_sql = yb_string_new();\n"@
                                + "    int64_t pre = 0;\n"@ + prepare_loop_text(
                                parameter.results,
                            ) + run_text(),
                        },
                    ),
                },
            },
        },
    }
}

/// What is generated for an insert or an update.
pub open spec fn statement_model(m: MapperView, st: StatementView) -> Result<Emitted, Seq<char>> {
    function_model(m, st.id, st.parameter_type, st.content, None)
}

/// What is generated for a select. Its result map must exist.
pub open spec fn select_model(m: MapperView, sel: YoSelectView) -> Result<Emitted, Seq<char>> {
    match lookup(m.result_maps, sel.result_map) {
        None => Err(missing_result_map_message(sel.result_map)),
        Some(rows) => function_model(m, sel.id, sel.parameter_type, sel.content, Some(rows)),
    }
}

/// A statement whose body holds, at any depth, an `<include>` that names no
/// fragment is not compiled.
pub proof fn lemma_statement_with_missing_include_fails(m: MapperView, st: StatementView)
    requires
        has_missing_include(m.sqls, st.content),
    ensures
        statement_model(m, st) is Err,
{
    lemma_missing_include_is_fatal(m.sqls, st.content, spaces_text(4), "cmd"@, 0);
}

/// A select whose body holds, at any depth, an `<include>` that names no
/// fragment is not compiled.
pub proof fn lemma_select_with_missing_include_fails(m: MapperView, sel: YoSelectView)
    requires
        has_missing_include(m.sqls, sel.content),
    ensures
        select_model(m, sel) is Err,
{
    lemma_missing_include_is_fatal(m.sqls, sel.content, spaces_text(4), "cmd"@, 0);
}

fn out_parameter_text(out: Option<&YoResultMap>) -> (r: String)
    ensures
        r@ == out_parameter(
            match out {
                Some(rows) => Some(rows@),
                None => None,
            },
        ),
{
    match out {
        Some(rows) => {
            let mut r = String::from_str(", ");
            r.append(rows.type_.as_str());
            r.append(" out");
            r
        },
        None => String::new(),
    }
}

fn bind_out_setup_text(out: Option<&YoResultMap>) -> (r: String)
    ensures
        r@ == bind_out_setup(
            match out {
                Some(rows) => Some(rows@),
                None => None,
            },
        ),
{
    match out {
        Some(rows) => {
            let count = decimal(rows.results.len() as u64);
            let mut r = String::from_str("    MYSQL_BIND bind_out[");
            r.append(count.as_str());
            r.append("*2];\n");
            r.append("    memset(bind, 0, sizeof(MYSQL_BIND)*");
            r.append(count.as_str());
            r.append("*2);\n");
            r.append("    int bind_out_num = 0;\n");
            r
        },
        None => String::new(),
    }
}

fn write_function(
    mapper_h: &mut String,
    mapper_c: &mut String,
    table: &Mapper,
    id: &str,
    parameter_type: &str,
    content: &Vec<Box<SqlElement>>,
    out: Option<&YoResultMap>,
) -> (r: Result<(), GenCError>)
    ensures
        match function_model(
            table@,
            id@,
            parameter_type@,
            content_view(content@),
            match out {
                Some(rows) => Some(rows@),
                None => None,
            },
        ) {
            Ok(emitted) => r is Ok && final(mapper_h)@ == old(mapper_h)@ + emitted.header
                && final(mapper_c)@ == old(mapper_c)@ + emitted.source,
            Err(message) => r is Err && r.unwrap_err()@ == message && final(mapper_h)@ == old(
                mapper_h,
            )@ && final(mapper_c)@ == old(mapper_c)@,
        },
{
    let out_param = out_parameter_text(out);
    let mut decl = String::from_str("int ");
    decl.append(id);
    decl.append("(MYSQL* conn, ");
    decl.append(parameter_type);
    decl.append(" n");
    decl.append(out_param.as_str());
    decl.append(");\n");

    let mut t = String::from_str("int ");
    t.append(id);
    t.append("(MYSQL* conn, ");
    t.append(parameter_type);
    t.append(" n");
    t.append(out_param.as_str());
    t.append(") {\n");
    t.append("    yb_string_t cmd = yb_string_new();\n");

    let mut inc: u64 = 0;
    let indent = spaces(4);
    match write_sql_gen_stmt(&mut t, indent.as_str(), table, content, "cmd", &mut inc) {
        Err(e) => {
            return Err(e);
        },
        Ok(()) => {},
    }

    let result_map = match table.type_maps.get(parameter_type) {
        Some(result_map) => result_map,
        None => {
            return Err(error_about("parameter type not found: ", parameter_type));
        },
    };

    let count = decimal(result_map.results.len() as u64);
    let mut setup = String::from_str("    MYSQL_BIND bind[");
    setup.append(count.as_str());
    setup.append("*2];\n");
    setup.append("    memset(bind, 0, sizeof(MYSQL_BIND)*");
    setup.append(count.as_str());
    setup.append("*2);\n");
    setup.append("    int bind_num = 0;\n");
    t.append(setup.as_str());

    let setup_out = bind_out_setup_text(out);
    t.append(setup_out.as_str());
    t.append("    yb_string_t prepare_sql = yb_string_new();\n");
    t.append("    int64_t pre = 0;\n");

    match write_cmd_to_prepare_sql(&mut t, result_map, table) {
        Err(e) => {
            return Err(e);
        },
        Ok(()) => {},
    }
    match check_placeholders(table, content, result_map) {
        Err(e) => {
            return Err(e);
        },
        Ok(()) => {},
    }

    let mut run = String::from_str("    MYSQL_STMT* stmt = mysql_stmt_init(NULL);\n");
    run.append(
        "    mysql_stmt_prepare(stmt, yb_string_data(prepare_sql), yb_string_length(prepare_sql));\n",
    );
    run.append("    mysql_stmt_bind_param(stmt, bind);\n");
    run.append("    mysql_stmt_execute(stmt);\n");
    run.append("    mysql_stmt_close(stmt);\n");
    run.append("    yb_string_free(prepare_sql);\n");
    run.append("    yb_string_free(cmd);\n");
    run.append("    return YB_OK;\n}\n\n");
    t.append(run.as_str());

    mapper_h.append(decl.as_str());
    mapper_c.append(t.as_str());
    Ok(())
}

/// Appends the function generated for an insert: its declaration to the header,
/// its definition to the source file. On an error nothing is appended.
pub fn write_insert_fn(
    mapper_h: &mut String,
    mapper_c: &mut String,
    insert_m: &YoInsert,
    table: &Mapper,
) -> (r: Result<(), GenCError>)
    ensures
        match statement_model(table@, insert_m@) {
            Ok(emitted) => r is Ok && final(mapper_h)@ == old(mapper_h)@ + emitted.header
                && final(mapper_c)@ == old(mapper_c)@ + emitted.source,
            Err(message) => r is Err && r.unwrap_err()@ == message && final(mapper_h)@ == old(
                mapper_h,
            )@ && final(mapper_c)@ == old(mapper_c)@,
        },
{
    write_function(
        mapper_h,
        mapper_c,
        table,
        insert_m.id.as_str(),
        insert_m.parameter_type.as_str(),
        &insert_m.content,
        None,
    )
}

/// Appends the function generated for an update: its declaration to the header,
/// its definition to the source file. On an error nothing is appended.
pub fn write_update_fn(
    mapper_h: &mut String,
    mapper_c: &mut String,
    update_m: &YoUpdate,
    table: &Mapper,
) -> (r: Result<(), GenCError>)
    ensures
        match statement_model(table@, update_m@) {
            Ok(emitted) => r is Ok && final(mapper_h)@ == old(mapper_h)@ + emitted.header
                && final(mapper_c)@ == old(mapper_c)@ + emitted.source,
            Err(message) => r is Err && r.unwrap_err()@ == message && final(mapper_h)@ == old(
                mapper_h,
            )@ && final(mapper_c)@ == old(mapper_c)@,
        },
{
    write_function(
        mapper_h,
        mapper_c,
        table,
        update_m.id.as_str(),
        update_m.parameter_type.as_str(),
        &update_m.content,
        None,
    )
}

/// Appends the function generated for a select: its declaration to the header,
/// its definition to the source file. On an error nothing is appended.
pub fn write_select_fn(
    mapper_h: &mut String,
    mapper_c: &mut String,
    select_m: &YoSelect,
    table: &Mapper,
) -> (r: Result<(), GenCError>)
    ensures
        match select_model(table@, select_m@) {
            Ok(emitted) => r is Ok && final(mapper_h)@ == old(mapper_h)@ + emitted.header
                && final(mapper_c)@ == old(mapper_c)@ + emitted.source,
            Err(message) => r is Err && r.unwrap_err()@ == message && final(mapper_h)@ == old(
                mapper_h,
            )@ && final(mapper_c)@ == old(mapper_c)@,
        },
{
    let result_out_map = match table.result_maps.get(select_m.result_map.as_str()) {
        Some(result_out_map) => result_out_map,
        None => {
            return Err(error_about("result map not found: ", select_m.result_map.as_str()));
        },
    };
    write_function(
        mapper_h,
        mapper_c,
        table,
        select_m.id.as_str(),
        select_m.parameter_type.as_str(),
        &select_m.content,
        Some(result_out_map),
    )
}

} // verus!
